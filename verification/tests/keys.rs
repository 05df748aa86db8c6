use twin_sync::keys::{dictionary_key, shell_key, submodel_key};

#[test]
fn composite_key_of_a_submodel() {
    assert_eq!(submodel_key("dev1", "SystemInformation"), "dev1:SystemInformation");
}

#[test]
fn key_of_the_shell_is_the_device_id() {
    assert_eq!(shell_key("dev1"), "dev1");
}

#[test]
fn key_of_the_dictionary() {
    assert_eq!(dictionary_key("dev1"), "dev1:submodels_dictionary");
}

#[test]
fn keys_of_two_submodels_differ() {
    assert_ne!(submodel_key("dev1", "ManagedDevice"), submodel_key("dev1", "SystemInformation"));
    assert_ne!(submodel_key("dev1", "ManagedDevice"), submodel_key("dev2", "ManagedDevice"));
    assert_ne!(submodel_key("dev1", "ManagedDevice"), shell_key("dev1"));
}

#[test]
fn empty_parts_keep_the_separator() {
    assert_eq!(submodel_key("", ""), ":");
    assert_eq!(submodel_key("dev1", ""), "dev1:");
}
