//! Resolution of the system account the managed process is spawned under.
//!
//! A package may insist on a service user and group in its metadata; those
//! must then exist, and a missing one is reported as an explicit error
//! rather than aborting the supervisor. Without such metadata the resolution
//! falls back to the well-known `hab` account, then to the current process's
//! account, and finally to the `nobody` sentinel.
//!
//! The account database lookups live in the `users` crate and their outcomes
//! depend on the machine, so the decisions over those outcomes stand in
//! verified functions that take the outcomes as arguments —
//! `check_named_accounts` for the metadata branch and `default_user_and_group`
//! for the fallback chain — each with an exact contract; `get_user_and_group`
//! only performs the lookups and hands their outcomes to them.

use vstd::prelude::*;

verus! {

/// What the supervisor reads from package metadata: the service user and
/// group the package insists on, when it does.
pub struct PackageAccounts {
    pub svc_user: Option<String>,
    pub svc_group: Option<String>,
}

/// The package names an account the system lacks.
#[derive(Debug)]
pub enum MissingAccountError {
    /// The named service user does not exist.
    User(String),
    /// The named service group does not exist.
    Group(String),
}

/// Relies on users::get_user_by_name, which answers through getpwnam_r:
/// a `Some` result is the database entry for exactly the queried name, with
/// its uid. Whether the entry exists depends on the machine's accounts.
#[verifier::external_body]
fn lookup_user(name: &str) -> (r: Option<(u32, String)>)
    ensures
        r matches Some(p) ==> p.1@ == name@,
{
    users::get_user_by_name(name).map(|u| (u.uid(), u.name().to_string_lossy().into_owned()))
}

/// Relies on users::get_group_by_name, which answers through getgrnam_r:
/// a `Some` result is the database entry for exactly the queried name, with
/// its gid. Whether the entry exists depends on the machine's accounts.
#[verifier::external_body]
fn lookup_group(name: &str) -> (r: Option<(u32, String)>)
    ensures
        r matches Some(p) ==> p.1@ == name@,
{
    users::get_group_by_name(name).map(|g| (g.gid(), g.name().to_string_lossy().into_owned()))
}

/// Relies on users::get_current_username: the name of the real user running
/// this process (getuid, then the database). Machine-dependent.
#[verifier::external_body]
fn current_user_name() -> (r: Option<String>) {
    users::get_current_username().map(|s| s.to_string_lossy().into_owned())
}

/// Relies on users::get_current_groupname: the name of the real group
/// running this process (getgid, then the database). Machine-dependent.
#[verifier::external_body]
fn current_group_name() -> (r: Option<String>) {
    users::get_current_groupname().map(|s| s.to_string_lossy().into_owned())
}

/// The uid of the named user, if the system knows the name.
pub fn user_name_to_uid(user: &str) -> (r: Option<u32>) {
    match lookup_user(user) {
        Some(p) => Some(p.0),
        None => None,
    }
}

/// The gid of the named group, if the system knows the name.
pub fn group_name_to_gid(group: &str) -> (r: Option<u32>) {
    match lookup_group(group) {
        Some(p) => Some(p.0),
        None => None,
    }
}

/// The decision over accounts a package insists on, taking the two lookup
/// outcomes as arguments: when both accounts were found the resolution is
/// exactly the named pair, and a missing account is the error naming it,
/// the user checked first.
pub fn check_named_accounts(
    user: &String,
    group: &String,
    user_found: bool,
    group_found: bool,
) -> (r: Result<(String, String), MissingAccountError>)
    ensures
        user_found && group_found ==> (r matches Ok(ug) && ug.0@ == user@ && ug.1@ == group@),
        !user_found ==> (r matches Err(e) && (e matches MissingAccountError::User(n) && n@
            == user@)),
        user_found && !group_found ==> (r matches Err(e) && (e matches MissingAccountError::Group(n)
            && n@ == group@)),
{
    if !user_found {
        Err(MissingAccountError::User(user.clone()))
    } else if !group_found {
        Err(MissingAccountError::Group(group.clone()))
    } else {
        Ok((user.clone(), group.clone()))
    }
}

/// The fallback chain when the package names no accounts, decided from the
/// four lookup outcomes: the `hab` pair when both `hab` lookups succeeded,
/// else the current process's pair when both are known, else the
/// unprivileged `nobody` sentinel. This path never fails.
pub fn default_user_and_group(
    hab_user: Option<(u32, String)>,
    hab_group: Option<(u32, String)>,
    cur_user: Option<String>,
    cur_group: Option<String>,
) -> (r: (String, String))
    ensures
        hab_user is Some && hab_group is Some ==> r.0@ == hab_user->Some_0.1@ && r.1@
            == hab_group->Some_0.1@,
        !(hab_user is Some && hab_group is Some) && cur_user is Some && cur_group is Some ==> r.0@
            == cur_user->Some_0@ && r.1@ == cur_group->Some_0@,
        !(hab_user is Some && hab_group is Some) && !(cur_user is Some && cur_group is Some)
            ==> r.0@ == "nobody"@ && r.1@ == "nobody"@,
{
    match (hab_user, hab_group) {
        (Some(u), Some(g)) => (u.1, g.1),
        _ => match (cur_user, cur_group) {
            (Some(u), Some(g)) => (u, g),
            _ => ("nobody".to_owned(), "nobody".to_owned()),
        },
    }
}

/// Resolve the user and group to run the managed process under.
///
/// When the package metadata names both a service user and a service group,
/// those exact names are resolved by `check_named_accounts` over the two
/// existence lookups: both found gives that very pair, a missing account an
/// error naming it. Without full metadata, `default_user_and_group` decides
/// over the four fallback lookups, so that branch always succeeds — and by
/// the lookup wrappers' name clause a successful `hab` rung resolves to the
/// literal `hab` pair.
pub fn get_user_and_group(pkg: &PackageAccounts) -> (r: Result<
    (String, String),
    MissingAccountError,
>)
    ensures
        pkg.svc_user is Some && pkg.svc_group is Some ==> match r {
            Ok(ug) => ug.0@ == pkg.svc_user->Some_0@ && ug.1@ == pkg.svc_group->Some_0@,
            Err(e) => match e {
                MissingAccountError::User(n) => n@ == pkg.svc_user->Some_0@,
                MissingAccountError::Group(n) => n@ == pkg.svc_group->Some_0@,
            },
        },
        !(pkg.svc_user is Some && pkg.svc_group is Some) ==> r is Ok,
{
    match (&pkg.svc_user, &pkg.svc_group) {
        (Some(user), Some(group)) => {
            let user_found = user_name_to_uid(user.as_str()).is_some();
            let group_found = group_name_to_gid(group.as_str()).is_some();
            check_named_accounts(user, group, user_found, group_found)
        },
        _ => {
            let hab_user = lookup_user("hab");
            let hab_group = lookup_group("hab");
            let cur_user = current_user_name();
            let cur_group = current_group_name();
            Ok(default_user_and_group(hab_user, hab_group, cur_user, cur_group))
        },
    }
}

} // verus!
