use std::sync::Mutex;

use darling_api::reconciler::forget;
use darling_api::reconciler::import_all;
use darling_api::reconciler::import_installed;
use darling_api::reconciler::install;
use darling_api::reconciler::is_listed;
use darling_api::reconciler::pending;
use darling_api::reconciler::rebuild;
use darling_api::reconciler::rebuild_section;
use darling_api::reconciler::record;
use darling_api::reconciler::remove;
use darling_api::reconciler::reported_version;
use darling_api::reconciler::run;
use darling_api::reconciler::versioned;
use darling_api::BackendFailure;
use darling_api::Command;
use darling_api::Context;
use darling_api::DarlingConfig;
use darling_api::Error;
use darling_api::InstallationEntry;
use darling_api::Manifest;
use darling_api::PackageManager;
use darling_api::Properties;
use darling_api::Registry;

/// A backend that keeps its system in memory and notes every call.
struct Fake {
    name: String,
    reports: Option<String>,
    fail_install_of: Option<String>,
    fail_post_install: bool,
    fail_uninstall: bool,
    fail_listing: bool,
    system: Mutex<Vec<(String, String)>>,
    calls: Mutex<Vec<String>>,
    seen: Mutex<Vec<Vec<(String, String)>>>,
}

impl Fake {
    fn named(name: &str) -> Fake {
        Fake {
            name: name.to_owned(),
            reports: None,
            fail_install_of: None,
            fail_post_install: false,
            fail_uninstall: false,
            fail_listing: false,
            system: Mutex::new(Vec::new()),
            calls: Mutex::new(Vec::new()),
            seen: Mutex::new(Vec::new()),
        }
    }

    fn with_system(self, packages: &[(&str, &str)]) -> Fake {
        *self.system.lock().unwrap() =
            packages.iter().map(|(n, v)| ((*n).to_owned(), (*v).to_owned())).collect();
        self
    }

    fn calls(&self) -> Vec<String> {
        self.calls.lock().unwrap().clone()
    }

    fn forget_calls(&self) {
        self.calls.lock().unwrap().clear();
    }
}

impl PackageManager for Fake {
    fn name(&self) -> String {
        self.name.clone()
    }

    fn install(
        &self,
        _context: &Context,
        package: &InstallationEntry,
    ) -> Result<Option<String>, BackendFailure> {
        self.calls.lock().unwrap().push(format!("install {}", package.name));
        self.seen.lock().unwrap().push(package.properties.pairs().clone());
        if self.fail_install_of.as_deref() == Some(package.name.as_str()) {
            return Err(BackendFailure { message: format!("cannot install {}", package.name) });
        }
        let version = self.reports.clone().unwrap_or_else(|| "0".to_owned());
        self.system.lock().unwrap().push((package.name.clone(), version));
        Ok(self.reports.clone())
    }

    fn post_install(&self, _context: &Context) -> Result<(), BackendFailure> {
        self.calls.lock().unwrap().push("post_install".to_owned());
        if self.fail_post_install {
            return Err(BackendFailure { message: "cannot finish".to_owned() });
        }
        Ok(())
    }

    fn uninstall(
        &self,
        _context: &Context,
        package: &InstallationEntry,
    ) -> Result<(), BackendFailure> {
        self.calls.lock().unwrap().push(format!("uninstall {}", package.name));
        if self.fail_uninstall {
            return Err(BackendFailure { message: format!("cannot remove {}", package.name) });
        }
        self.system.lock().unwrap().retain(|(name, _)| name != &package.name);
        Ok(())
    }

    fn get_all_explicit(&self, _context: &Context) -> Result<Vec<(String, String)>, BackendFailure> {
        self.calls.lock().unwrap().push("list".to_owned());
        if self.fail_listing {
            return Err(BackendFailure { message: "cannot list".to_owned() });
        }
        Ok(self.system.lock().unwrap().clone())
    }
}

fn context() -> Context {
    Context { config: DarlingConfig::for_home("/home/ada") }
}

fn parsed(text: &str) -> Manifest {
    Manifest::parse(text).ok().unwrap()
}

fn package(name: &str) -> InstallationEntry {
    InstallationEntry { name: name.to_owned(), properties: Properties::new() }
}

fn version_of(manifest: &Manifest, section: &str, name: &str) -> Option<String> {
    manifest
        .section(section)
        .ok()
        .unwrap()
        .iter()
        .find(|e| e.name == name)
        .and_then(|e| e.properties.get("version").cloned())
}

fn names_in(manifest: &Manifest, section: &str) -> Vec<String> {
    manifest.section(section).ok().unwrap().iter().map(|e| e.name.clone()).collect()
}

fn strings(items: &[&str]) -> Vec<String> {
    items.iter().map(|s| (*s).to_owned()).collect()
}

#[test]
fn config_points_below_the_home_directory() {
    assert_eq!(context().config.source_location, "/home/ada/.local/share/darling/source");
}

#[test]
fn install_without_reported_version_records_latest() {
    let backend = Fake::named("npm");
    let mut manifest = parsed("[module]");
    assert!(install(&backend, &context(), &mut manifest, "npm", package("foo"), true).is_ok());
    assert_eq!(version_of(&manifest, "npm", "foo"), Some("latest".to_owned()));
    assert_eq!(manifest.render(), "[module]\n\n[npm]\nfoo = { version = \"latest\" }\n");
    assert_eq!(backend.calls(), strings(&["install foo", "post_install"]));
}

#[test]
fn install_records_the_reported_version_and_it_survives_a_reload() {
    let mut backend = Fake::named("arch");
    backend.reports = Some("14.1.0".to_owned());
    let mut manifest = parsed("[module]\n[npm]\nleft-pad = { version = \"1\" }\n");
    assert!(install(&backend, &context(), &mut manifest, "arch", package("ripgrep"), true).is_ok());
    let reloaded = parsed(&manifest.render());
    let version = version_of(&reloaded, "arch", "ripgrep").unwrap();
    assert_eq!(version, "14.1.0");
    assert!(!version.is_empty());
    assert_eq!(names_in(&reloaded, "npm"), strings(&["left-pad"]));
}

#[test]
fn install_keeps_the_other_properties_of_the_package() {
    let mut backend = Fake::named("arch");
    backend.reports = Some("2".to_owned());
    let mut properties = Properties::new();
    properties.insert("source".to_owned(), "aur".to_owned());
    properties.insert("version".to_owned(), "1".to_owned());
    let wanted = InstallationEntry { name: "joshuto".to_owned(), properties };
    let mut manifest = parsed("");
    assert!(install(&backend, &context(), &mut manifest, "arch", wanted, true).is_ok());
    assert_eq!(manifest.render(), "[arch]\njoshuto = { source = \"aur\", version = \"2\" }\n");
}

#[test]
fn install_that_fails_leaves_the_manifest_untouched() {
    let mut backend = Fake::named("npm");
    backend.fail_install_of = Some("foo".to_owned());
    let text = "# mine\n[npm]\nbar = { version = \"1\" }\n";
    let mut manifest = parsed(text);
    match install(&backend, &context(), &mut manifest, "npm", package("foo"), true) {
        Err(Error::BackendExecution(cause)) => assert_eq!(cause, "cannot install foo"),
        _ => panic!("the backend's failure must be reported"),
    }
    assert_eq!(manifest.render(), text);
    assert_eq!(backend.calls(), strings(&["install foo"]));
}

#[test]
fn failing_post_install_aborts_before_the_manifest_changes() {
    let mut backend = Fake::named("npm");
    backend.fail_post_install = true;
    let text = "[npm]\n";
    let mut manifest = parsed(text);
    match install(&backend, &context(), &mut manifest, "npm", package("foo"), true) {
        Err(Error::BackendExecution(cause)) => assert_eq!(cause, "cannot finish"),
        _ => panic!("the backend's failure must be reported"),
    }
    assert_eq!(manifest.render(), text);
}

#[test]
fn install_without_system_does_not_call_the_backend() {
    let backend = Fake::named("npm");
    let mut manifest = parsed("");
    let mut properties = Properties::new();
    properties.insert("version".to_owned(), "3.1".to_owned());
    let found = InstallationEntry { name: "foo".to_owned(), properties };
    assert!(install(&backend, &context(), &mut manifest, "npm", found, false).is_ok());
    assert!(backend.calls().is_empty());
    assert_eq!(version_of(&manifest, "npm", "foo"), Some("3.1".to_owned()));
}

#[test]
fn corrupt_section_fails_every_operation_and_nothing_is_written() {
    let text = "editor-extensions = 7\n[npm]\n";
    let backend = Fake::named("editor-extensions").with_system(&[("vim-mode", "1.0")]);
    let registry: Registry<Fake> = Registry::new();

    let mut manifest = parsed(text);
    let ran = run(
        &backend,
        &registry,
        &context(),
        &mut manifest,
        "editor-extensions",
        Command::Install { package_name: "foo".to_owned() },
    );
    match ran {
        Err(Error::CorruptManifest(name)) => assert_eq!(name, "editor-extensions"),
        _ => panic!("a corrupt section must be refused"),
    }
    assert_eq!(manifest.render(), text);

    let ran = run(
        &backend,
        &registry,
        &context(),
        &mut manifest,
        "editor-extensions",
        Command::Remove { package_name: "foo".to_owned() },
    );
    assert!(matches!(ran, Err(Error::CorruptManifest(_))));
    assert_eq!(manifest.render(), text);

    let ran = run(
        &backend,
        &registry,
        &context(),
        &mut manifest,
        "editor-extensions",
        Command::LoadInstalled,
    );
    assert!(matches!(ran, Err(Error::CorruptManifest(_))));
    assert_eq!(manifest.render(), text);

    let mut known: Registry<Fake> = Registry::new();
    assert!(known.register(Fake::named("editor-extensions")).is_none());
    assert!(known.register(Fake::named("npm")).is_none());
    let ran = run(&backend, &known, &context(), &mut manifest, "editor-extensions", Command::Rebuild);
    match ran {
        Err(Error::CorruptManifest(name)) => assert_eq!(name, "editor-extensions"),
        _ => panic!("a corrupt section must be refused"),
    }
    assert_eq!(manifest.render(), text);
}

#[test]
fn install_then_remove_leaves_no_entry_and_removing_again_is_harmless() {
    let backend = Fake::named("npm");
    let mut manifest = parsed("[npm]\nbar = { version = \"1\" }\n");
    assert!(install(&backend, &context(), &mut manifest, "npm", package("foo"), true).is_ok());
    assert_eq!(names_in(&manifest, "npm"), strings(&["bar", "foo"]));
    assert!(remove(&backend, &context(), &mut manifest, "npm", "foo").is_ok());
    assert_eq!(names_in(&manifest, "npm"), strings(&["bar"]));
    let after_first = manifest.render();
    assert!(remove(&backend, &context(), &mut manifest, "npm", "foo").is_ok());
    assert_eq!(manifest.render(), after_first);
    assert_eq!(
        backend.calls(),
        strings(&["install foo", "post_install", "uninstall foo", "uninstall foo"])
    );
}

#[test]
fn remove_without_a_section_still_uninstalls() {
    let backend = Fake::named("arch").with_system(&[("fd", "9")]);
    let text = "[npm]\n";
    let mut manifest = parsed(text);
    assert!(remove(&backend, &context(), &mut manifest, "arch", "fd").is_ok());
    assert_eq!(manifest.render(), text);
    assert_eq!(backend.calls(), strings(&["uninstall fd"]));
}

#[test]
fn remove_that_fails_leaves_the_manifest_untouched() {
    let mut backend = Fake::named("npm");
    backend.fail_uninstall = true;
    let text = "[npm]\nfoo = { version = \"1\" }\n";
    let mut manifest = parsed(text);
    match remove(&backend, &context(), &mut manifest, "npm", "foo") {
        Err(Error::BackendExecution(cause)) => assert_eq!(cause, "cannot remove foo"),
        _ => panic!("the backend's failure must be reported"),
    }
    assert_eq!(manifest.render(), text);
}

#[test]
fn forget_and_record_work_on_the_manifest_alone() {
    let mut manifest = parsed("[npm]\n");
    assert!(record(&mut manifest, "npm", package("a"), Some("1.0".to_owned())).is_ok());
    assert!(record(&mut manifest, "npm", package("b"), None).is_ok());
    assert_eq!(
        manifest.render(),
        "[npm]\na = { version = \"1.0\" }\nb = { version = \"latest\" }\n"
    );
    assert!(forget(&mut manifest, "npm", "a").is_ok());
    assert!(forget(&mut manifest, "npm", "a").is_ok());
    assert!(forget(&mut manifest, "arch", "a").is_ok());
    assert_eq!(manifest.render(), "[npm]\nb = { version = \"latest\" }\n");
    let mut corrupt = parsed("npm = 1\n");
    assert!(matches!(forget(&mut corrupt, "npm", "a"), Err(Error::CorruptManifest(_))));
    assert!(matches!(
        record(&mut corrupt, "npm", package("a"), None),
        Err(Error::CorruptManifest(_))
    ));
}

#[test]
fn versioned_prefers_the_report_then_the_property_then_latest() {
    let mut properties = Properties::new();
    properties.insert("version".to_owned(), "1".to_owned());
    let with_property = InstallationEntry { name: "a".to_owned(), properties };
    assert_eq!(
        versioned(with_property.clone(), Some("2".to_owned())).properties.get("version"),
        Some(&"2".to_owned())
    );
    assert_eq!(versioned(with_property, None).properties.get("version"), Some(&"1".to_owned()));
    assert_eq!(versioned(package("a"), None).properties.get("version"), Some(&"latest".to_owned()));
    assert_eq!(versioned(package("a"), None).name, "a");
}

#[test]
fn pending_keeps_the_unlisted_entries_in_order() {
    let entries = vec![package("a"), package("b"), package("c"), package("d")];
    let explicit = vec![("b".to_owned(), "1".to_owned()), ("d".to_owned(), "2".to_owned())];
    assert!(is_listed(&explicit, "b"));
    assert!(!is_listed(&explicit, "a"));
    assert!(!is_listed(&Vec::new(), "a"));
    let todo: Vec<String> = pending(&entries, &explicit).iter().map(|e| e.name.clone()).collect();
    assert_eq!(todo, strings(&["a", "c"]));
    assert!(pending(&entries, &vec![
        ("a".to_owned(), "".to_owned()),
        ("b".to_owned(), "".to_owned()),
        ("c".to_owned(), "".to_owned()),
        ("d".to_owned(), "".to_owned())
    ])
    .is_empty());
}

#[test]
fn rebuild_section_installs_what_is_missing_and_finishes_once() {
    let backend = Fake::named("npm").with_system(&[("b", "1")]);
    let entries = vec![package("a"), package("b"), package("c")];
    let installed = rebuild_section(&backend, &context(), &entries).ok().unwrap();
    assert_eq!(installed, strings(&["a", "c"]));
    assert_eq!(backend.calls(), strings(&["list", "install a", "install c", "post_install"]));
}

#[test]
fn rebuild_walks_sections_in_order_and_hands_over_recorded_properties() {
    let mut registry: Registry<Fake> = Registry::new();
    assert!(registry.register(Fake::named("arch").with_system(&[("fd", "9")])).is_none());
    assert!(registry.register(Fake::named("npm")).is_none());
    let text = "[npm]\nleft-pad = { version = \"1.3.0\" }\n\n[arch]\nfd = { version = \"9\" }\njoshuto = { version = \"0.9\", source = \"aur\" }\n";
    let manifest = parsed(text);
    let report = rebuild(&registry, &context(), &manifest).ok().unwrap();
    assert_eq!(report.len(), 2);
    assert_eq!(report[0].module, "npm");
    assert_eq!(report[0].installed, strings(&["left-pad"]));
    assert_eq!(report[1].module, "arch");
    assert_eq!(report[1].installed, strings(&["joshuto"]));
    let arch = registry.resolve("arch").unwrap();
    assert_eq!(arch.calls(), strings(&["list", "install joshuto", "post_install"]));
    assert_eq!(
        arch.seen.lock().unwrap().clone(),
        vec![vec![
            ("version".to_owned(), "0.9".to_owned()),
            ("source".to_owned(), "aur".to_owned())
        ]]
    );
    assert_eq!(manifest.render(), text);
}

#[test]
fn second_rebuild_installs_nothing() {
    let mut registry: Registry<Fake> = Registry::new();
    assert!(registry.register(Fake::named("npm").with_system(&[("b", "2")])).is_none());
    let manifest = parsed("[npm]\na = { version = \"1\" }\nb = { version = \"2\" }\nc = { version = \"3\" }\n");
    let first = rebuild(&registry, &context(), &manifest).ok().unwrap();
    assert_eq!(first[0].installed, strings(&["a", "c"]));
    registry.resolve("npm").unwrap().forget_calls();
    let second = rebuild(&registry, &context(), &manifest).ok().unwrap();
    assert!(second[0].installed.is_empty());
    assert_eq!(registry.resolve("npm").unwrap().calls(), strings(&["list", "post_install"]));
}

#[test]
fn rebuild_stops_at_a_section_without_a_backend() {
    let mut registry: Registry<Fake> = Registry::new();
    assert!(registry.register(Fake::named("npm")).is_none());
    let manifest = parsed("[npm]\na = { version = \"1\" }\n[zypper]\nb = { version = \"1\" }\n");
    match rebuild(&registry, &context(), &manifest) {
        Err(Error::BackendNotFound(name)) => assert_eq!(name, "zypper"),
        _ => panic!("a section without a backend must be reported"),
    }
    assert_eq!(
        registry.resolve("npm").unwrap().calls(),
        strings(&["list", "install a", "post_install"])
    );
}

#[test]
fn rebuild_stops_at_the_first_failing_install() {
    let mut failing = Fake::named("npm");
    failing.fail_install_of = Some("b".to_owned());
    let mut registry: Registry<Fake> = Registry::new();
    assert!(registry.register(failing).is_none());
    assert!(registry.register(Fake::named("arch")).is_none());
    let manifest = parsed("[npm]\na = {}\nb = {}\nc = {}\n[arch]\nfd = {}\n");
    match rebuild(&registry, &context(), &manifest) {
        Err(Error::BackendExecution(cause)) => assert_eq!(cause, "cannot install b"),
        _ => panic!("the backend's failure must be reported"),
    }
    assert_eq!(
        registry.resolve("npm").unwrap().calls(),
        strings(&["list", "install a", "install b"])
    );
    assert!(registry.resolve("arch").unwrap().calls().is_empty());
}

#[test]
fn rebuild_reports_a_failing_listing() {
    let mut failing = Fake::named("npm");
    failing.fail_listing = true;
    let mut registry: Registry<Fake> = Registry::new();
    assert!(registry.register(failing).is_none());
    let manifest = parsed("[npm]\na = {}\n");
    match rebuild(&registry, &context(), &manifest) {
        Err(Error::BackendExecution(cause)) => assert_eq!(cause, "cannot list"),
        _ => panic!("the backend's failure must be reported"),
    }
}

#[test]
fn rebuild_of_an_empty_manifest_does_nothing() {
    let registry: Registry<Fake> = Registry::new();
    assert!(rebuild(&registry, &context(), &parsed("")).ok().unwrap().is_empty());
}

#[test]
fn import_records_exactly_what_the_backend_lists() {
    let backend = Fake::named("arch").with_system(&[("A", "1.0"), ("B", "2.0")]);
    let mut manifest = parsed("# others\n[npm]\nleft-pad = { version = \"1.3.0\" } # keep\n");
    let writes = import_installed(&backend, &context(), &mut manifest, "arch").ok().unwrap();
    assert_eq!(backend.calls(), strings(&["list"]));
    let entries = manifest.section("arch").ok().unwrap();
    assert_eq!(entries.len(), 2);
    assert_eq!(entries[0].name, "A");
    assert_eq!(entries[0].properties.pairs(), &vec![("version".to_owned(), "1.0".to_owned())]);
    assert_eq!(entries[1].name, "B");
    assert_eq!(entries[1].properties.pairs(), &vec![("version".to_owned(), "2.0".to_owned())]);
    assert_eq!(
        manifest.render(),
        "# others\n[npm]\nleft-pad = { version = \"1.3.0\" } # keep\n\n[arch]\nA = { version = \"1.0\" }\nB = { version = \"2.0\" }\n"
    );
    assert_eq!(writes.len(), 2);
    assert_eq!(
        writes[0],
        "# others\n[npm]\nleft-pad = { version = \"1.3.0\" } # keep\n\n[arch]\nA = { version = \"1.0\" }\n"
    );
    assert_eq!(writes[1], manifest.render());
}

#[test]
fn import_twice_gives_the_same_manifest() {
    let backend = Fake::named("arch").with_system(&[("A", "1.0"), ("B", "2.0")]);
    let mut manifest = parsed("[arch]\nB = { version = \"0.1\", source = \"aur\" }\nC = { version = \"3\" }\n");
    assert!(import_installed(&backend, &context(), &mut manifest, "arch").is_ok());
    let once = manifest.render();
    assert_eq!(
        once,
        "[arch]\nB = { version = \"2.0\" }\nC = { version = \"3\" }\nA = { version = \"1.0\" }\n"
    );
    assert!(import_installed(&backend, &context(), &mut manifest, "arch").is_ok());
    assert_eq!(manifest.render(), once);
}

#[test]
fn import_of_nothing_writes_nothing() {
    let text = "npm = 1\n";
    let mut manifest = parsed(text);
    let writes = import_all(&mut manifest, "npm", &Vec::new()).ok().unwrap();
    assert!(writes.is_empty());
    assert_eq!(manifest.render(), text);
    match import_all(&mut manifest, "npm", &vec![("a".to_owned(), "1".to_owned())]) {
        Err(Error::CorruptManifest(name)) => assert_eq!(name, "npm"),
        _ => panic!("a corrupt section must be refused"),
    }
    assert_eq!(manifest.render(), text);
}

#[test]
fn import_reports_a_failing_listing() {
    let mut backend = Fake::named("npm");
    backend.fail_listing = true;
    let text = "[npm]\n";
    let mut manifest = parsed(text);
    match import_installed(&backend, &context(), &mut manifest, "npm") {
        Err(Error::BackendExecution(cause)) => assert_eq!(cause, "cannot list"),
        _ => panic!("the backend's failure must be reported"),
    }
    assert_eq!(manifest.render(), text);
}

#[test]
fn run_install_says_what_to_write() {
    let mut backend = Fake::named("npm");
    backend.reports = Some("4.17.21".to_owned());
    let registry: Registry<Fake> = Registry::new();
    let mut manifest = parsed("[module]");
    let outcome = run(
        &backend,
        &registry,
        &context(),
        &mut manifest,
        "npm",
        Command::Install { package_name: "lodash".to_owned() },
    )
    .ok()
    .unwrap();
    assert_eq!(outcome.writes, vec!["[module]\n\n[npm]\nlodash = { version = \"4.17.21\" }\n".to_owned()]);
    assert!(outcome.rebuilt.is_empty());
}

#[test]
fn run_remove_says_what_to_write() {
    let backend = Fake::named("npm");
    let registry: Registry<Fake> = Registry::new();
    let mut manifest = parsed("[npm]\nlodash = { version = \"4\" }\nreact = { version = \"18\" }\n");
    let outcome = run(
        &backend,
        &registry,
        &context(),
        &mut manifest,
        "npm",
        Command::Remove { package_name: "lodash".to_owned() },
    )
    .ok()
    .unwrap();
    assert_eq!(outcome.writes, vec!["[npm]\nreact = { version = \"18\" }\n".to_owned()]);
}

#[test]
fn run_rebuild_writes_nothing() {
    let backend = Fake::named("unused");
    let mut registry: Registry<Fake> = Registry::new();
    assert!(registry.register(Fake::named("npm")).is_none());
    let mut manifest = parsed("[npm]\nlodash = { version = \"4\" }\n");
    let outcome =
        run(&backend, &registry, &context(), &mut manifest, "npm", Command::Rebuild).ok().unwrap();
    assert!(outcome.writes.is_empty());
    assert_eq!(outcome.rebuilt.len(), 1);
    assert_eq!(outcome.rebuilt[0].installed, strings(&["lodash"]));
    assert!(backend.calls().is_empty());
}

#[test]
fn run_load_installed_says_what_to_write_after_each_package() {
    let backend = Fake::named("npm").with_system(&[("a", "1"), ("b", "2"), ("c", "3")]);
    let registry: Registry<Fake> = Registry::new();
    let mut manifest = parsed("");
    let outcome = run(&backend, &registry, &context(), &mut manifest, "npm", Command::LoadInstalled)
        .ok()
        .unwrap();
    assert_eq!(outcome.writes.len(), 3);
    assert_eq!(outcome.writes[0], "[npm]\na = { version = \"1\" }\n");
    assert_eq!(outcome.writes[2], manifest.render());
}

#[test]
fn run_reports_a_failing_backend_and_writes_nothing() {
    let mut backend = Fake::named("npm");
    backend.fail_install_of = Some("lodash".to_owned());
    let registry: Registry<Fake> = Registry::new();
    let text = "[npm]\n";
    let mut manifest = parsed(text);
    let ran = run(
        &backend,
        &registry,
        &context(),
        &mut manifest,
        "npm",
        Command::Install { package_name: "lodash".to_owned() },
    );
    assert!(matches!(ran, Err(Error::BackendExecution(_))));
    assert_eq!(manifest.render(), text);
}

#[test]
fn registry_finds_backends_by_name_and_refuses_a_second_of_the_same_name() {
    let mut registry: Registry<Fake> = Registry::new();
    assert_eq!(registry.len(), 0);
    assert!(registry.register(Fake::named("npm")).is_none());
    assert!(registry.register(Fake::named("arch")).is_none());
    let refused = registry.register(Fake::named("npm").with_system(&[("x", "1")]));
    assert_eq!(refused.unwrap().system.lock().unwrap().len(), 1);
    assert_eq!(registry.len(), 2);
    assert_eq!(registry.position("arch"), Some(1));
    assert_eq!(registry.position("zypper"), None);
    assert_eq!(registry.resolve("arch").unwrap().name, "arch");
    assert!(registry.resolve("npm").unwrap().system.lock().unwrap().is_empty());
    assert!(registry.resolve("zypper").is_none());
    match registry.require("zypper") {
        Err(Error::BackendNotFound(name)) => assert_eq!(name, "zypper"),
        _ => panic!("an unknown backend must be reported"),
    }
    assert!(registry.require("npm").is_ok());
    assert!(registry.register_as("alias".to_owned(), Fake::named("npm")).is_none());
    assert_eq!(registry.resolve("alias").unwrap().name, "npm");
}

#[test]
fn reported_version_is_that_of_the_first_pair_with_the_name() {
    let explicit = vec![
        ("a".to_owned(), "1".to_owned()),
        ("b".to_owned(), "2".to_owned()),
        ("a".to_owned(), "3".to_owned()),
    ];
    assert_eq!(reported_version(&explicit, "a"), Some("1".to_owned()));
    assert_eq!(reported_version(&explicit, "b"), Some("2".to_owned()));
    assert_eq!(reported_version(&explicit, "c"), None);
    assert_eq!(reported_version(&Vec::new(), "a"), None);
}

#[test]
fn section_written_as_a_table_of_tables_is_read_like_inline_tables() {
    let manifest = parsed("[npm.left-pad]\nversion = \"1.3.0\"\nretries = 3\n");
    let entries = manifest.section("npm").ok().unwrap();
    assert_eq!(entries.len(), 1);
    assert_eq!(entries[0].name, "left-pad");
    assert_eq!(entries[0].properties.pairs(), &vec![("version".to_owned(), "1.3.0".to_owned())]);
}
