use avdan_runtime::security::{Constraints, Permission, SecurityError};

#[test]
fn wildcard_grant_covers_children() {
    let c = Constraints::new(vec!["avdan.file.*"], vec![]);
    assert!(c.has_permission("avdan.file.read"));
    assert!(c.has_permission("avdan.file.write"));
    assert!(c.has_permission("avdan.file.read.deep"));
    assert!(!c.has_permission("avdan.shell.exec"));
}

#[test]
fn wildcard_reached_at_query_end_covers() {
    let p = Permission::new("avdan.file.*");
    assert!(p.has("avdan.file"));
}

#[test]
fn exact_grant_matches_only_itself() {
    let c = Constraints::new(vec!["avdan.clipboard.read"], vec![]);
    assert!(c.has_permission("avdan.clipboard.read"));
    assert!(!c.has_permission("avdan.clipboard.write"));
    assert!(!c.has_permission("avdan.clipboard.read.more"));
    assert!(!c.has_permission("avdan.clipboard"));
    assert!(!c.has_permission(""));
}

#[test]
fn longer_grant_denies_shorter_query() {
    let p = Permission::new("avdan.net.fetch");
    assert!(!p.has("avdan.net"));
    assert!(!p.has("avdan"));
    let q = Permission::new("avdan.x.*");
    assert!(!q.has("avdan"));
}

#[test]
fn any_grant_suffices() {
    let c = Constraints::new(vec!["avdan.debug.log", "avdan.net.*"], vec!["ls"]);
    assert!(c.has_permission("avdan.net.fetch"));
    assert!(c.has_permission("avdan.debug.log"));
    assert!(!c.has_permission("avdan.debug.wait"));
    assert_eq!(c.permissions().len(), 2);
    assert_eq!(c.permissions()[1], "avdan.net.*");
}

#[test]
fn empty_constraints_deny_everything() {
    let c = Constraints::new(vec![], vec![]);
    assert!(!c.has_permission("avdan.debug.log"));
    assert!(!c.is_command_permitted("ls"));
}

#[test]
fn commands_match_exactly() {
    let c = Constraints::new(vec![], vec!["xclip", "ls"]);
    assert!(c.is_command_permitted("xclip"));
    assert!(c.is_command_permitted("ls"));
    assert!(!c.is_command_permitted("xcli"));
    assert!(!c.is_command_permitted("lss"));
    assert_eq!(c.commands().len(), 2);
}

#[test]
fn denied_call_does_not_run_body() {
    let c = Constraints::new(vec!["avdan.clipboard.read"], vec![]);
    let mut clipboard = String::from("unchanged");
    let r = c.guard("avdan.clipboard.write", || {
        clipboard = String::from("written");
    });
    assert!(r.is_err());
    assert_eq!(clipboard, "unchanged");
    match r {
        Err(SecurityError::PermissionDenied(p)) => assert_eq!(p, "avdan.clipboard.write"),
        _ => panic!("expected a permission denial"),
    }
}

#[test]
fn granted_call_runs_body() {
    let c = Constraints::new(vec!["avdan.clipboard.*"], vec![]);
    let r = c.guard("avdan.clipboard.write", || 41 + 1);
    assert_eq!(r.ok(), Some(42));
}

#[test]
fn denial_messages() {
    let c = Constraints::new(vec![], vec![]);
    let e = c.check_permission("avdan.file.read").unwrap_err();
    assert_eq!(
        e.message(),
        "SecurityException -- Invalid permissions!\nYour extension does not have 'avdan.file.read'."
    );
    let e = c.check_command("rm").unwrap_err();
    assert_eq!(
        e.message(),
        "SecurityException -- Invalid command declaration!\nYour extension has not declared the use of `rm`."
    );
    assert!(Constraints::new(vec![], vec!["rm"]).check_command("rm").is_ok());
}
