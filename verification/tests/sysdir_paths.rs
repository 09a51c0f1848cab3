use appflow::sysdir::Sysdir;

#[test]
fn lib_name() {
    let x = Sysdir::default();
    println!("{}", x.config_dir("myconfig.txt").path_string());
}

#[test]
fn current_dir_is_relative() {
    let x = Sysdir::default();
    assert_eq!(x.current_dir("myconfig.txt").path_string(), "./myconfig.txt");
}

#[test]
fn config_dir_ends_under_the_app_name() {
    let x = Sysdir::custom_name("myapp");
    let p = x.config_dir("settings.toml").path_string();
    assert!(p.ends_with("/myapp/settings.toml"));
}

#[test]
fn choose_found_prefers_the_current_directory() {
    let x = Sysdir::custom_name("myapp");
    let cur = x.current_dir("f");
    let sys = x.config_dir("f");

    let picked = Sysdir::choose_found(cur.clone(), sys.clone(), true, true).unwrap();
    assert_eq!(picked.path_string(), cur.path_string());

    let picked = Sysdir::choose_found(cur.clone(), sys.clone(), false, true).unwrap();
    assert_eq!(picked.path_string(), sys.path_string());

    assert!(Sysdir::choose_found(cur, sys, false, false).is_none());
}

#[test]
fn find_path_misses_when_the_file_exists_nowhere() {
    let x = Sysdir::custom_name("no-such-app-dir");
    assert!(x.find_path("surely-no-such-file.xyz").is_none());
}
