use kitu::error::KituError;
use kitu::scripting::ScriptHost;

#[test]
fn registering_and_invoking_scripts() {
    let mut host = ScriptHost::default();
    host.register_script("demo", "fn run() { 1 }");
    assert_eq!(host.len(), 1);

    let err = host.invoke("demo", "run").unwrap_err();
    assert!(matches!(err, KituError::NotImplemented(value) if value == "run"));
}

#[test]
fn invoking_missing_script_returns_error() {
    let host = ScriptHost::default();
    let err = host.invoke("missing", "run").unwrap_err();
    assert!(matches!(err, KituError::InvalidInput("missing script")));
}

#[test]
fn a_later_script_replaces_an_earlier_one_of_its_name() {
    let mut host = ScriptHost::default();
    assert_eq!(host.len(), 0);
    host.register_script("demo", "one");
    host.register_script("other", "two");
    host.register_script("demo", "three");
    assert_eq!(host.len(), 2);
}

#[test]
fn invoking_names_the_function_that_is_not_implemented() {
    let mut host = ScriptHost::default();
    host.register_script("demo", "fn run() { 1 }");
    assert_eq!(
        host.invoke("demo", "update"),
        Err(KituError::NotImplemented("update".to_string()))
    );
    assert_eq!(
        host.invoke("Demo", "update"),
        Err(KituError::InvalidInput("missing script"))
    );
}
