use std::collections::BTreeMap;
use std::sync::Arc;

use opa_bundle_builder::config::{join_path, ARCHIVE_ROOT, BUNDLE_NAME};
use opa_bundle_builder::driver::RETRY_DELAY_SECS;
use opa_bundle_builder::{
    error_policy, Action, Command, ControllerError, Ctx, Outcome, PolicyResource, Reconciler, Stage,
};

fn ctx() -> Ctx {
    Ctx {
        active: String::from("active"),
        incoming: String::from("incoming"),
        tmp: String::from("tmp"),
    }
}

fn resource(name: &str, entries: &[(&str, &str)]) -> PolicyResource {
    PolicyResource {
        name: Some(String::from(name)),
        entries: Some(
            entries
                .iter()
                .map(|(k, v)| (String::from(*k), String::from(*v)))
                .collect(),
        ),
    }
}

/// Files on a pretend disk: the staging tree, and each archive as the map
/// from its entry paths to their text.
#[derive(Default)]
struct Disk {
    files: BTreeMap<String, String>,
    staged: Option<BTreeMap<String, String>>,
    served: Option<BTreeMap<String, String>>,
    mutations: usize,
}

#[derive(Clone, Copy, PartialEq)]
enum Fail {
    Nothing,
    Write,
    Package,
    Publish,
}

impl Disk {
    fn perform(&mut self, c: &Command, fail: Fail) -> Outcome {
        match c {
            Command::CreateDir { .. } => Outcome::Success,
            Command::WriteEntry { path, content, .. } => {
                if fail == Fail::Write {
                    return Outcome::Failed(String::from("disk full"));
                }
                self.mutations += 1;
                self.files.insert(path.clone(), content.clone());
                Outcome::Success
            }
            Command::Package { tree, root, .. } => {
                if fail == Fail::Package {
                    self.staged = None;
                    return Outcome::ArchiveAppendFailed(String::from("write failed"));
                }
                let prefix = format!("{}/", tree);
                let archive = self
                    .files
                    .iter()
                    .filter_map(|(p, c)| {
                        p.strip_prefix(&prefix)
                            .map(|rest| (format!("{}/{}", root, rest), c.clone()))
                    })
                    .collect();
                self.staged = Some(archive);
                Outcome::Success
            }
            Command::Publish { .. } => {
                if fail == Fail::Publish {
                    return Outcome::Failed(String::from("rename failed"));
                }
                self.mutations += 1;
                self.served = self.staged.take();
                Outcome::Success
            }
        }
    }

    /// Runs one change event to its end and returns what the watcher does next.
    fn event(&mut self, r: &PolicyResource, fail: Fail) -> Result<Option<Action>, ControllerError> {
        let mut rc = match Reconciler::start(&ctx(), r)? {
            Some(rc) => rc,
            None => return Ok(None),
        };
        while let Some(c) = rc.next_command() {
            let o = self.perform(&c, fail);
            rc.report(o);
        }
        Ok(rc.action())
    }

    fn served(&self, path: &str) -> Option<&str> {
        self.served.as_ref().and_then(|a| a.get(path)).map(|s| s.as_str())
    }
}

#[test]
fn test_update_bundle() {
    let context = Ctx {
        active: String::from("/x/active"),
        incoming: String::from("/x/incoming"),
        tmp: String::from("/x/tmp"),
    };
    let config_map = resource("test-bundle-builder", &[("roles.rego", "allow user true")]);
    let mut rc = Reconciler::start(&context, &config_map).unwrap().unwrap();
    let mut commands = Vec::new();
    while let Some(c) = rc.next_command() {
        commands.push(format!("{:?}", c));
        rc.report(Outcome::Success);
    }
    assert_eq!(commands.len(), 4);
    assert!(commands[0].contains("\"/x/incoming/test-bundle-builder\""));
    assert!(commands[1].contains("\"/x/incoming/test-bundle-builder/roles.rego\""));
    assert!(commands[1].contains("\"allow user true\""));
    assert!(commands[2].contains("\"/x/tmp/bundle.tar.gz\""));
    assert!(commands[3].contains("to: \"/x/active/bundle.tar.gz\""));
    assert!(matches!(rc.stage, Stage::Done));
    assert_eq!(rc.action(), Some(Action::await_change()));
}

#[test]
fn commands_of_a_reconciliation_in_order() {
    let mut rc = Reconciler::start(&ctx(), &resource("team-a", &[("a.rego", "x"), ("b.rego", "y")]))
        .unwrap()
        .unwrap();
    match rc.next_command() {
        Some(Command::CreateDir { resource, path }) => {
            assert_eq!(resource, "team-a");
            assert_eq!(path, "incoming/team-a");
        }
        other => panic!("{:?}", other),
    }
    rc.report(Outcome::Success);
    match rc.next_command() {
        Some(Command::WriteEntry { key, path, content, .. }) => {
            assert_eq!(key, "a.rego");
            assert_eq!(path, "incoming/team-a/a.rego");
            assert_eq!(content, "x");
        }
        other => panic!("{:?}", other),
    }
    rc.report(Outcome::Success);
    match rc.next_command() {
        Some(Command::WriteEntry { path, content, .. }) => {
            assert_eq!(path, "incoming/team-a/b.rego");
            assert_eq!(content, "y");
        }
        other => panic!("{:?}", other),
    }
    rc.report(Outcome::Success);
    match rc.next_command() {
        Some(Command::Package { tree, archive, root }) => {
            assert_eq!(tree, "incoming");
            assert_eq!(archive, "tmp/bundle.tar.gz");
            assert_eq!(root, "bundles");
        }
        other => panic!("{:?}", other),
    }
    assert_eq!(rc.action(), None);
    rc.report(Outcome::Success);
    match rc.next_command() {
        Some(Command::Publish { from, to }) => {
            assert_eq!(from, "tmp/bundle.tar.gz");
            assert_eq!(to, "active/bundle.tar.gz");
        }
        other => panic!("{:?}", other),
    }
    rc.report(Outcome::Success);
    assert!(rc.next_command().is_none());
    assert_eq!(rc.action(), Some(Action { requeue_after_secs: None }));
}

#[test]
fn resource_without_name_is_rejected() {
    let r = PolicyResource {
        name: None,
        entries: Some(vec![(String::from("a.rego"), String::from("x"))]),
    };
    assert!(matches!(Reconciler::start(&ctx(), &r), Err(ControllerError::OpaBundleHasNoName)));
    let mut disk = Disk::default();
    assert!(disk.event(&r, Fail::Nothing).is_err());
    assert_eq!(disk.mutations, 0);
    assert!(disk.files.is_empty());
}

#[test]
fn absent_entries_are_no_work() {
    let r = PolicyResource { name: Some(String::from("team-a")), entries: None };
    assert!(matches!(Reconciler::start(&ctx(), &r), Ok(None)));
}

#[test]
fn empty_entries_change_nothing() {
    let mut disk = Disk::default();
    disk.event(&resource("team-a", &[("rules.rego", "allow true")]), Fail::Nothing).unwrap();
    let before = disk.served.clone();
    let mutations = disk.mutations;
    assert_eq!(disk.event(&resource("team-a", &[]), Fail::Nothing).unwrap(), None);
    assert_eq!(disk.mutations, mutations);
    assert_eq!(disk.served, before);
}

#[test]
fn scenario_single_resource_is_served() {
    let mut disk = Disk::default();
    let a = disk.event(&resource("team-a", &[("rules.rego", "allow true")]), Fail::Nothing);
    assert_eq!(a.unwrap(), Some(Action::await_change()));
    assert_eq!(disk.served("bundles/team-a/rules.rego"), Some("allow true"));
}

#[test]
fn scenario_update_replaces_content_and_keeps_others() {
    let mut disk = Disk::default();
    disk.event(&resource("team-b", &[("b.rego", "allow false")]), Fail::Nothing).unwrap();
    disk.event(&resource("team-a", &[("rules.rego", "allow true")]), Fail::Nothing).unwrap();
    disk.event(&resource("team-a", &[("rules.rego", "deny true")]), Fail::Nothing).unwrap();
    assert_eq!(disk.served("bundles/team-a/rules.rego"), Some("deny true"));
    assert_eq!(disk.served("bundles/team-b/b.rego"), Some("allow false"));
}

#[test]
fn scenario_two_resources_served_together() {
    let mut disk = Disk::default();
    disk.event(&resource("team-a", &[("a.rego", "allow true")]), Fail::Nothing).unwrap();
    disk.event(&resource("team-b", &[("b.rego", "deny true")]), Fail::Nothing).unwrap();
    assert_eq!(disk.served("bundles/team-a/a.rego"), Some("allow true"));
    assert_eq!(disk.served("bundles/team-b/b.rego"), Some("deny true"));
    assert_eq!(disk.served.as_ref().unwrap().len(), 2);
}

#[test]
fn scenario_failed_packaging_keeps_served_archive() {
    let mut disk = Disk::default();
    disk.event(&resource("team-a", &[("a.rego", "allow true")]), Fail::Nothing).unwrap();
    let before = disk.served.clone();
    let a = disk.event(&resource("team-c", &[("c.rego", "x")]), Fail::Package).unwrap();
    assert_eq!(a, Some(Action::requeue(5)));
    assert_eq!(disk.served, before);
}

#[test]
fn failed_publish_keeps_served_archive() {
    let mut disk = Disk::default();
    disk.event(&resource("team-a", &[("a.rego", "allow true")]), Fail::Nothing).unwrap();
    let before = disk.served.clone();
    let a = disk.event(&resource("team-a", &[("a.rego", "deny true")]), Fail::Publish).unwrap();
    assert_eq!(a, Some(Action { requeue_after_secs: Some(5) }));
    assert_eq!(disk.served, before);
}

#[test]
fn failure_before_first_publish_serves_nothing() {
    let mut disk = Disk::default();
    disk.event(&resource("team-a", &[("a.rego", "allow true")]), Fail::Write).unwrap();
    assert_eq!(disk.served, None);
}

#[test]
fn republishing_same_content_serves_same_entries() {
    let mut disk = Disk::default();
    let r = resource("team-a", &[("a.rego", "allow true"), ("b.rego", "deny true")]);
    disk.event(&r, Fail::Nothing).unwrap();
    let first = disk.served.clone();
    disk.event(&r, Fail::Nothing).unwrap();
    assert_eq!(disk.served, first);
}

#[test]
fn entries_of_a_removed_resource_stay_bundled() {
    let mut disk = Disk::default();
    disk.event(&resource("team-a", &[("a.rego", "allow true"), ("old.rego", "x")]), Fail::Nothing)
        .unwrap();
    disk.event(&resource("team-a", &[("a.rego", "allow true")]), Fail::Nothing).unwrap();
    assert_eq!(disk.served("bundles/team-a/old.rego"), Some("x"));
}

fn failed_with(stage_steps: usize, o: Outcome) -> ControllerError {
    let mut rc = Reconciler::start(&ctx(), &resource("team-a", &[("a.rego", "x")])).unwrap().unwrap();
    for _ in 0..stage_steps {
        rc.report(Outcome::Success);
    }
    rc.report(o);
    assert_eq!(rc.action(), Some(Action::requeue(RETRY_DELAY_SECS)));
    match rc.stage {
        Stage::Failed(e) => e,
        other => panic!("{:?}", other),
    }
}

#[test]
fn failures_are_classified_by_stage() {
    let d = || String::from("boom");
    assert_eq!(failed_with(0, Outcome::Failed(d())), ControllerError::OpaBundleDir { detail: d() });
    assert_eq!(failed_with(1, Outcome::Failed(d())), ControllerError::OpaBundleDir { detail: d() });
    assert_eq!(
        failed_with(2, Outcome::ArchiveOpenFailed(d())),
        ControllerError::CreateBundle { detail: d(), path: String::from("tmp/bundle.tar.gz") }
    );
    assert_eq!(
        failed_with(2, Outcome::ArchiveAppendFailed(d())),
        ControllerError::AppendToBundleTar { detail: d() }
    );
    assert_eq!(failed_with(2, Outcome::Failed(d())), ControllerError::CreateBundleTar { detail: d() });
    assert_eq!(
        failed_with(3, Outcome::Failed(d())),
        ControllerError::PublishBundle { detail: d(), path: String::from("active/bundle.tar.gz") }
    );
}

#[test]
fn categories_name_the_variant() {
    let d = || String::from("e");
    assert_eq!(ControllerError::OpaBundleHasNoName.category(), "OpaBundleHasNoName");
    assert_eq!(ControllerError::OpaBundleDir { detail: d() }.category(), "OpaBundleDir");
    assert_eq!(ControllerError::MissingWatchNamespace.category(), "MissingWatchNamespace");
    assert_eq!(ControllerError::CreateBundle { detail: d(), path: d() }.category(), "CreateBundle");
    assert_eq!(ControllerError::CreateBundleTar { detail: d() }.category(), "CreateBundleTar");
    assert_eq!(ControllerError::AppendToBundleTar { detail: d() }.category(), "AppendToBundleTar");
    assert_eq!(ControllerError::PublishBundle { detail: d(), path: d() }.category(), "PublishBundle");
}

#[test]
fn every_failure_waits_the_fixed_delay() {
    let a = error_policy(Arc::new(7u8), &ControllerError::OpaBundleHasNoName, Arc::new(ctx()));
    assert_eq!(a.requeue_after_secs, Some(5));
    let b = error_policy(
        Arc::new("x"),
        &ControllerError::PublishBundle { detail: String::new(), path: String::new() },
        Arc::new(ctx()),
    );
    assert_eq!(a, b);
}

#[test]
fn paths_of_the_configuration() {
    let c = ctx();
    assert_eq!(c.staging_archive_path(), "tmp/bundle.tar.gz");
    assert_eq!(c.serving_archive_path(), "active/bundle.tar.gz");
    assert_eq!(c.resource_dir("team-a"), "incoming/team-a");
    assert_eq!(join_path("a", "b"), "a/b");
    assert_eq!(BUNDLE_NAME, "bundle.tar.gz");
    assert_eq!(ARCHIVE_ROOT, "bundles");
}
