//! The names of the files of an experiment and of its results.
use crate::utils::text::{append_decimal, decimal_text};
use vstd::prelude::*;
use vstd::string::StringExecFns;

verus! {

/// The folder of the experiments and their results.
pub const FOLDER_RESULTS: &'static str = "results";

/// What is put behind the name of an experiment to tell it from earlier
/// ones of the same name: nothing, or a hyphen and a counter.
pub open spec fn counter_text(counter: Option<usize>) -> Seq<char> {
    match counter {
        None => Seq::empty(),
        Some(i) => "-"@ + decimal_text(i as nat),
    }
}

/// The name of the file of the experiment.
pub open spec fn experiment_file_text(name: Seq<char>, counter: Option<usize>) -> Seq<char> {
    name + counter_text(counter) + ".json"@
}

/// The name of the file of the results.
pub open spec fn results_file_text(name: Seq<char>, counter: Option<usize>) -> Seq<char> {
    "result-"@ + name + counter_text(counter) + ".txt"@
}

/// The names of the two files, which lie in `FOLDER_RESULTS`.
pub fn experiment_and_results_filepath(name: &str, counter: Option<usize>) -> (files: (String, String))
    ensures
        files.0@ == experiment_file_text(name@, counter),
        files.1@ == results_file_text(name@, counter),
{
    let mut experiment = String::from_str(name);
    let mut results = String::from_str("result-");
    results.append(name);
    match counter {
        None => {},
        Some(i) => {
            experiment.append("-");
            append_decimal(&mut experiment, i as u64);
            results.append("-");
            append_decimal(&mut results, i as u64);
        },
    }
    experiment.append(".json");
    results.append(".txt");
    assert(experiment@ =~= experiment_file_text(name@, counter));
    assert(results@ =~= results_file_text(name@, counter));
    (experiment, results)
}

/// One step of the search for names that are free.
pub enum PathsStep {
    /// The names are free. `renamed` says whether to tell that they
    /// differ from the plain names.
    Found { experiment: String, results: String, renamed: bool },
    /// The names are taken: those with this counter are to be tried.
    Next { counter: usize },
}

/// Whether names are taken: the file of the results exists or, in an
/// interactive run, that of the experiment.
pub open spec fn taken(interactive: bool, experiment_exists: bool, results_exists: bool) -> bool {
    (interactive && experiment_exists) || results_exists
}

/// Decides on the names with the given counter, of which it is known
/// whether their files exist. The search starts without a counter, goes
/// on with the counter two and then counts up. Names whose counter cannot
/// be counted up are taken as they are.
pub fn get_experiment_and_results_paths(
    name: &str,
    interactive: bool,
    counter: Option<usize>,
    experiment_exists: bool,
    results_exists: bool,
) -> (step: PathsStep)
    ensures
        match step {
            PathsStep::Next { counter: next } => {
                &&& taken(interactive, experiment_exists, results_exists)
                &&& next == match counter {
                    None => 2,
                    Some(i) => i + 1,
                }
            },
            PathsStep::Found { experiment, results, renamed } => {
                &&& !taken(interactive, experiment_exists, results_exists) || counter == Some(usize::MAX)
                &&& experiment@ == experiment_file_text(name@, counter)
                &&& results@ == results_file_text(name@, counter)
                &&& renamed == (interactive && counter is Some)
            },
        },
{
    if (interactive && experiment_exists) || results_exists {
        let next = match counter {
            None => Some(2),
            Some(i) => i.checked_add(1),
        };
        if let Some(next) = next {
            return PathsStep::Next { counter: next };
        }
    }
    let (experiment, results) = experiment_and_results_filepath(name, counter);
    PathsStep::Found { experiment, results, renamed: interactive && counter.is_some() }
}

} // verus!
