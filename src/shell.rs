//! Decisions of the `shell` command: which service's variables to load, the
//! environment the subshell gets, and which shell program to start.
use vstd::prelude::*;

verus! {

/// Options of the `shell` command.
pub struct Args {
    /// Service to pull variables from (defaults to the linked service).
    pub service: Option<String>,
}

/// A service of the linked project, as the project query lists it.
pub struct ServiceRef {
    pub id: String,
    pub name: String,
}

#[derive(Debug, PartialEq, Eq)]
pub enum ShellError {
    /// The requested service is neither the name nor the id of a project service.
    ServiceNotFound,
}

pub open spec fn names_service(s: ServiceRef, wanted: Seq<char>) -> bool {
    s.name@ == wanted || s.id@ == wanted
}

/// The first service whose name or id is `wanted`.
pub fn find_service(services: &Vec<ServiceRef>, wanted: &String) -> (r: Option<usize>)
    ensures
        match r {
            Some(i) => i < services@.len() && names_service(services@[i as int], wanted@)
                && forall|k: int| 0 <= k < i ==> !names_service(#[trigger] services@[k], wanted@),
            None => forall|k: int| 0 <= k < services@.len() ==> !names_service(#[trigger] services@[k], wanted@),
        },
{
    let mut i: usize = 0;
    while i < services.len()
        invariant
            i <= services@.len(),
            forall|k: int| 0 <= k < i ==> !names_service(#[trigger] services@[k], wanted@),
        decreases services@.len() - i,
    {
        if services[i].name == *wanted || services[i].id == *wanted {
            return Some(i);
        }
        i += 1;
    }
    None
}

/// The id of the service whose variables the subshell gets: the one the options
/// name, else the linked one; `None` when neither is set.
pub fn target_service(args: &Args, services: &Vec<ServiceRef>, linked: Option<String>) -> (r: Result<
    Option<String>,
    ShellError,
>)
    ensures
        match args.service {
            Some(w) => match r {
                Ok(Some(id)) => exists|i: int| 0 <= i < services@.len() && names_service(services@[i], w@)
                    && id@ == services@[i].id@ && forall|k: int| 0 <= k < i ==> !names_service(#[trigger] services@[k], w@),
                Ok(None) => false,
                Err(ShellError::ServiceNotFound) => forall|k: int| 0 <= k < services@.len() ==> !names_service(#[trigger] services@[k], w@),
            },
            None => r == Ok::<Option<String>, ShellError>(linked),
        },
{
    match &args.service {
        Some(w) => match find_service(services, w) {
            Some(i) => Ok(Some(services[i].id.clone())),
            None => Err(ShellError::ServiceNotFound),
        },
        None => Ok(linked),
    }
}

pub open spec fn marker_name() -> Seq<char> {
    "IN_RAILWAY_SHELL"@
}

/// The subshell's added environment, in the order it is applied (a later entry
/// overrides an earlier one of the same name): the marker first, then the service's variables.
pub fn shell_environment(service_vars: Vec<(String, String)>) -> (r: Vec<(String, String)>)
    ensures
        r@.len() == service_vars@.len() + 1,
        r@[0].0@ == marker_name(),
        r@[0].1@ == "true"@,
        r@.drop_first() == service_vars@,
{
    let mut r: Vec<(String, String)> = Vec::new();
    r.push((String::from_str("IN_RAILWAY_SHELL"), String::from_str("true")));
    let mut rest = service_vars;
    r.append(&mut rest);
    assert(r@.drop_first() =~= service_vars@);
    r
}

/// The shell program to start: `SHELL` when it is set, else `cmd` on Windows and `sh` elsewhere.
pub fn shell_program(shell_var: Option<String>, windows: bool) -> (r: String)
    ensures
        shell_var matches Some(s) ==> r@ == s@,
        shell_var is None && windows ==> r@ == "cmd"@,
        shell_var is None && !windows ==> r@ == "sh"@,
{
    match shell_var {
        Some(s) => s,
        None => if windows {
            String::from_str("cmd")
        } else {
            String::from_str("sh")
        },
    }
}

} // verus!
