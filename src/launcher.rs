//! Building the worker invocation from a store selection.

use vstd::prelude::*;
use crate::config::AppConfig;

verus! {

/// The ids of a store selection joined by commas, in the order given.
pub open spec fn comma_joined(ids: Seq<Seq<char>>) -> Seq<char>
    decreases ids.len(),
{
    if ids.len() == 0 {
        Seq::empty()
    } else if ids.len() == 1 {
        ids[0]
    } else {
        comma_joined(ids.drop_last()) + seq![','] + ids.last()
    }
}

/// The store-selection part of the worker's argument list.
pub open spec fn selection_args(ids: Seq<Seq<char>>) -> Seq<Seq<char>> {
    if ids.len() == 0 {
        seq!["--all"@]
    } else if ids.len() == 1 {
        seq!["--store"@, ids[0]]
    } else {
        seq!["--stores"@, comma_joined(ids)]
    }
}

/// Joins store ids with commas, keeping their order.
pub fn join_store_ids(ids: &Vec<String>) -> (r: String)
    ensures
        r@ == comma_joined(ids.deep_view()),
{
    let mut out = String::new();
    let mut i: usize = 0;
    while i < ids.len()
        invariant
            i <= ids.len(),
            out@ == comma_joined(ids.deep_view().take(i as int)),
        decreases ids.len() - i,
    {
        if i > 0 {
            proof {
                reveal_strlit(",");
            }
            out.append(",");
        }
        out.append(ids[i].as_str());
        assert(ids.deep_view().take(i + 1).drop_last() =~= ids.deep_view().take(i as int));
        assert(ids.deep_view().take(i + 1).last() == ids[i as int]@);
        assert(ids.deep_view().take(i + 1)[0] == ids.deep_view()[0]);
        i += 1;
    }
    assert(ids.deep_view().take(ids.len() as int) =~= ids.deep_view());
    out
}

/// The argument list that selects the given stores: an "all stores" flag for
/// an empty selection, a single-store flag for one id, and a multi-store flag
/// with the comma-joined ids otherwise.
pub fn store_selection_args(stores: &Vec<String>) -> (r: Vec<String>)
    ensures
        r.deep_view() == selection_args(stores.deep_view()),
{
    let mut args: Vec<String> = Vec::new();
    if stores.len() == 0 {
        args.push(String::from_str("--all"));
    } else if stores.len() == 1 {
        args.push(String::from_str("--store"));
        args.push(join_store_ids(stores));
        assert(comma_joined(stores.deep_view()) == stores.deep_view()[0]);
    } else {
        args.push(String::from_str("--stores"));
        args.push(join_store_ids(stores));
    }
    assert(args.deep_view() =~= selection_args(stores.deep_view()));
    args
}


/// A ready-to-spawn worker command line.
#[derive(Debug, Clone)]
pub struct WorkerInvocation {
    pub program: String,
    pub args: Vec<String>,
    pub working_dir: Option<String>,
}

/// The module argument that starts the worker under its Python interpreter.
pub open spec fn runner_args() -> Seq<Seq<char>> {
    seq!["-m"@, "src.runner"@]
}

/// Builds the worker invocation for a store selection.
///
/// A configured run command is used as is, in the worker directory when one
/// is set. Otherwise the worker directory is required, and the worker runs as
/// a Python module there, under `venv_python` (the directory's virtual
/// environment interpreter, when it exists) or else `python3`.
pub fn build_invocation(config: &AppConfig, stores: &Vec<String>, venv_python: Option<String>) -> (r:
    Result<WorkerInvocation, String>)
    ensures
        config.worker_run_cmd.is_some() ==> r.is_ok() && r.unwrap().program
            == config.worker_run_cmd.unwrap() && r.unwrap().args.deep_view() == selection_args(
            stores.deep_view(),
        ) && r.unwrap().working_dir == config.worker_dir,
        config.worker_run_cmd.is_none() && config.worker_dir.is_none() ==> r.is_err()
            && r.unwrap_err()@ == "WORKER_DIR is not set"@,
        config.worker_run_cmd.is_none() && config.worker_dir.is_some() ==> r.is_ok()
            && r.unwrap().program@ == (match venv_python {
            Some(p) => p@,
            None => "python3"@,
        }) && r.unwrap().args.deep_view() == runner_args() + selection_args(stores.deep_view())
            && r.unwrap().working_dir == config.worker_dir,
{
    let selection = store_selection_args(stores);
    assert(selection.deep_view() == selection_args(stores.deep_view()));
    match &config.worker_run_cmd {
        Some(cmd) => {
            let dir = match &config.worker_dir {
                Some(d) => Some(d.clone()),
                None => None,
            };
            Ok(WorkerInvocation { program: cmd.clone(), args: selection, working_dir: dir })
        },
        None => match &config.worker_dir {
            None => Err(String::from_str("WORKER_DIR is not set")),
            Some(d) => {
                let program = match venv_python {
                    Some(p) => p,
                    None => String::from_str("python3"),
                };
                let mut args: Vec<String> = Vec::new();
                args.push(String::from_str("-m"));
                args.push(String::from_str("src.runner"));
                let mut rest = selection;
                args.append(&mut rest);
                assert(args.deep_view() =~= runner_args() + selection_args(stores.deep_view()));
                Ok(WorkerInvocation { program, args, working_dir: Some(d.clone()) })
            },
        },
    }
}

} // verus!
