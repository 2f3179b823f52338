use ingen_sdk::egp_env::{
    first_list_item, split_list, value_or_default, EgpEnv, EgpEnvError, EgpEnvVars,
};

fn set(v: &str) -> Option<String> {
    Some(v.to_string())
}

#[test]
fn egp_env_can_parse_valid_config() {
    let vars = EgpEnvVars {
        vm_data_folder: set("/data"),
        process_data_folder: set("/process_data"),
        region: set("test-region"),
        dc: set("test-dc"),
        cluster: set("test-cluster"),
        host: set("test-host"),
        vm_name: set("test-vm"),
        vm_owner: set("test-owner"),
        vm_role: set("test-role"),
        private_ipv4: set("10.0.0.1"),
        private_ipv6: set("[0001::1]"),
    };

    let env = EgpEnv::from_vars(&vars);
    assert_eq!(env.vm_data_folders, vec!["/data".to_string()]);
    assert_eq!(env.process_data_folders, vec!["/process_data".to_string()]);
    assert_eq!(env.region, "test-region");
    assert_eq!(env.dc, "test-dc");
    assert_eq!(env.cluster, "test-cluster");
    assert_eq!(env.host, "test-host");
    assert_eq!(env.vm_name, "test-vm");
    assert_eq!(env.vm_owner, "test-owner");
    assert_eq!(env.vm_role, "test-role");
    assert_eq!(env.primary_ip_v4, Some("10.0.0.1".to_string()));
    assert_eq!(env.primary_ip_v6, Some("[0001::1]".to_string()));
}

#[test]
fn egp_env_can_parse_multiple_ips() {
    let vars = EgpEnvVars {
        vm_data_folder: set("/data"),
        process_data_folder: set("/process_data"),
        vm_name: set("test-vm"),
        vm_role: set("test-role"),
        private_ipv4: set("10.0.0.1,10.0.0.2,10.0.0.3"),
        private_ipv6: set("[0001::1],[0001::2],[0001::3]"),
        region: None,
        dc: None,
        cluster: None,
        host: None,
        vm_owner: None,
    };

    let env = EgpEnv::from_vars(&vars);
    assert_eq!(env.vm_data_folders, vec!["/data".to_string()]);
    assert_eq!(env.process_data_folders, vec!["/process_data".to_string()]);
    assert_eq!(env.vm_name, "test-vm");
    assert_eq!(env.vm_role, "test-role");
    assert_eq!(env.primary_ip_v4, Some("10.0.0.1".to_string()));
    assert_eq!(env.primary_ip_v6, Some("[0001::1]".to_string()));
}

#[test]
fn egp_env_can_parse_empty_config() {
    let vars = EgpEnvVars {
        vm_data_folder: set("/data"),
        process_data_folder: set("/process_data"),
        region: set(""),
        dc: set(""),
        cluster: set(""),
        host: set(""),
        vm_name: set("test-vm"),
        vm_owner: set(""),
        vm_role: set("test-role"),
        private_ipv4: set(""),
        private_ipv6: set(""),
    };

    let env = EgpEnv::from_vars(&vars);
    assert_eq!(env.vm_data_folders, vec!["/data".to_string()]);
    assert_eq!(env.process_data_folders, vec!["/process_data".to_string()]);
    assert_eq!(env.region, "");
    assert_eq!(env.dc, "");
    assert_eq!(env.cluster, "");
    assert_eq!(env.host, "");
    assert_eq!(env.vm_name, "test-vm");
    assert_eq!(env.vm_owner, "");
    assert_eq!(env.vm_role, "test-role");
    assert!(env.primary_ip_v4.is_none());
    assert!(env.primary_ip_v6.is_none());
}

#[test]
fn egp_env_can_parse_unset_config() {
    let vars = EgpEnvVars {
        vm_data_folder: set("/data"),
        process_data_folder: set("/process_data"),
        vm_name: set("test-vm"),
        vm_role: set("test-role"),
        region: None,
        dc: None,
        cluster: None,
        host: None,
        vm_owner: None,
        private_ipv4: None,
        private_ipv6: None,
    };

    let env = EgpEnv::from_vars(&vars);
    assert_eq!(env.vm_data_folders, vec!["/data".to_string()]);
    assert_eq!(env.process_data_folders, vec!["/process_data".to_string()]);
    assert_eq!(env.vm_name, "test-vm");
    assert_eq!(env.vm_role, "test-role");

    assert_eq!(env.region, "");
    assert_eq!(env.dc, "");
    assert_eq!(env.cluster, "");
    assert_eq!(env.host, "");
    assert_eq!(env.vm_owner, "");
    assert!(env.primary_ip_v4.is_none());
    assert!(env.primary_ip_v6.is_none());
}

#[test]
fn egp_env_role_defaults_to_vm_name() {
    let vars = EgpEnvVars {
        vm_data_folder: set("/data"),
        process_data_folder: set("/process_data"),
        vm_name: set("test-vm"),
        ..Default::default()
    };
    let env = EgpEnv::from_vars(&vars);
    assert_eq!(env.vm_role, "test-vm");

    let vars = EgpEnvVars { vm_role: set(""), ..vars };
    let env = EgpEnv::from_vars(&vars);
    assert_eq!(env.vm_role, "test-vm");
}

#[test]
fn egp_env_splits_multiple_data_folders() {
    let vars = EgpEnvVars {
        vm_data_folder: set("/data,/shared,/scratch"),
        process_data_folder: set(""),
        vm_name: set("vm"),
        ..Default::default()
    };
    let env = EgpEnv::from_vars(&vars);
    assert_eq!(
        env.vm_data_folders,
        vec!["/data".to_string(), "/shared".to_string(), "/scratch".to_string()]
    );
    assert_eq!(env.process_data_folders, vec!["".to_string()]);
}

#[test]
fn split_list_keeps_empty_pieces() {
    assert_eq!(split_list("", ','), vec!["".to_string()]);
    assert_eq!(
        split_list("a,,b,", ','),
        vec!["a".to_string(), "".to_string(), "b".to_string(), "".to_string()]
    );
    assert_eq!(split_list(",", ','), vec!["".to_string(), "".to_string()]);
    assert_eq!(split_list("é,ü", ','), vec!["é".to_string(), "ü".to_string()]);
}

#[test]
fn split_list_then_join_gives_back_the_text() {
    for s in ["", ",", "a", "a,b", ",a,,b,", "x,é,,ü"] {
        assert_eq!(split_list(s, ',').join(","), s);
        assert!(split_list(s, ',').iter().all(|p| !p.contains(',')));
    }
}

#[test]
fn first_list_item_cases() {
    assert_eq!(first_list_item(&None), None);
    assert_eq!(first_list_item(&set("")), None);
    assert_eq!(first_list_item(&set("10.0.0.1")), Some("10.0.0.1".to_string()));
    assert_eq!(first_list_item(&set(",10.0.0.2")), Some("".to_string()));
    assert_eq!(first_list_item(&set("a,b")), Some("a".to_string()));
}

#[test]
fn value_or_default_cases() {
    assert_eq!(value_or_default(&None), "");
    assert_eq!(value_or_default(&set("x")), "x");
}

#[test]
fn try_from_vars_reports_what_is_missing() {
    let complete = EgpEnvVars {
        vm_data_folder: set("/data"),
        process_data_folder: set("/process_data"),
        vm_name: set("test-vm"),
        ..Default::default()
    };
    let env = EgpEnv::try_from_vars(&complete).unwrap();
    assert_eq!(env.vm_name, "test-vm");
    assert_eq!(env.vm_data_folders, vec!["/data".to_string()]);

    let no_vm_folder = EgpEnvVars { vm_data_folder: None, ..complete.clone() };
    assert_eq!(EgpEnv::try_from_vars(&no_vm_folder).unwrap_err(), EgpEnvError::MissingDataFolder);
    let no_process_folder = EgpEnvVars { process_data_folder: None, vm_name: None, ..complete.clone() };
    assert_eq!(
        EgpEnv::try_from_vars(&no_process_folder).unwrap_err(),
        EgpEnvError::MissingDataFolder
    );
    let no_name = EgpEnvVars { vm_name: None, ..complete.clone() };
    assert_eq!(EgpEnv::try_from_vars(&no_name).unwrap_err(), EgpEnvError::MissingVmName);
    let empty_name = EgpEnvVars { vm_name: set(""), ..complete };
    assert_eq!(EgpEnv::try_from_vars(&empty_name).unwrap_err(), EgpEnvError::MissingVmName);
}
