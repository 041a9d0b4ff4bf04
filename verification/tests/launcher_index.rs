use wyrd_shell::json::Json;
use wyrd_shell::launcher::{
    admit_desktop_file, clean_exec_line, desktop_file_id, kept_exec_words, launch_plans, parse_desktop_content,
    plans_for_words,
    search_dirs, sort_apps, AppInfo, LauncherAction, LauncherModule,
};

const FIREFOX: &str = "[Desktop Entry]\nName=Firefox\nName[de]=Feuerfuchs\nExec=firefox %u\nComment=Browse the Web\nIcon=firefox\nTerminal=false\nCategories=Network;WebBrowser; ;\n\n[Desktop Action new-window]\nName=New Window\nExec=firefox --new-window\n";

#[test]
fn desktop_entries_are_read() {
    let app = parse_desktop_content(FIREFOX, "firefox").unwrap();
    assert_eq!(app.id, "firefox");
    assert_eq!(app.name, "Firefox");
    assert_eq!(app.command, "firefox");
    assert_eq!(app.comment, "Browse the Web");
    assert_eq!(app.icon, "firefox");
    assert!(!app.terminal);
    assert_eq!(app.categories, vec!["Network".to_string(), "WebBrowser".to_string()]);
}

#[test]
fn hidden_or_incomplete_entries_are_skipped() {
    assert!(parse_desktop_content("[Desktop Entry]\nName=X\nExec=x\nNoDisplay=TRUE\n", "x").is_none());
    assert!(parse_desktop_content("[Desktop Entry]\nName=X\n", "x").is_none());
    assert!(parse_desktop_content("Name=X\nExec=x\n", "x").is_none());
    let term = parse_desktop_content("# c\n[Desktop Entry]\r\nExec = htop \r\nName=Htop\nTerminal=True\n", "htop").unwrap();
    assert!(term.terminal);
    assert_eq!(term.command, "htop");
}

#[test]
fn exec_lines_lose_field_codes() {
    assert_eq!(clean_exec_line("code --new-window %F"), "code --new-window");
    assert_eq!(clean_exec_line("env A=1 app @@u %U @@ --"), "env 'A=1' app");
    assert_eq!(clean_exec_line("sh -c 'echo hi'"), "sh -c 'echo hi'");
    assert_eq!(clean_exec_line("bad 'quote"), "bad ''\\''quote'");
}

fn app(id: &str, name: &str, cmd: &str) -> AppInfo {
    AppInfo {
        id: id.to_string(),
        name: name.to_string(),
        command: cmd.to_string(),
        comment: String::new(),
        icon: String::new(),
        terminal: false,
        categories: Vec::new(),
    }
}

fn module(apps: Vec<AppInfo>, max_items: usize) -> LauncherModule {
    LauncherModule {
        apps,
        query: String::new(),
        selected: 0,
        initialized: true,
        config: Json::Null,
        max_items,
    }
}

#[test]
fn search_filters_case_blind_and_caps() {
    let mut m = module(vec![app("a", "Alpha", "alpha"), app("b", "Beta", "beta"), app("c", "Gamma", "gam")], 2);
    assert_eq!(m.filtered_apps().len(), 2);
    m.on_event("launcher_search", "  ALP ");
    let names: Vec<&str> = m.filtered_apps().iter().map(|a| a.name.as_str()).collect();
    assert_eq!(names, vec!["Alpha"]);
    m.on_event("launcher_search", "a");
    assert_eq!(m.filtered_apps().len(), 2);
}

#[test]
fn selection_wraps_and_submit_launches() {
    let mut m = module(vec![app("a", "Alpha", "alpha"), app("b", "Beta", "beta")], 8);
    assert!(matches!(m.on_event("launcher_search", "up"), LauncherAction::Show));
    assert_eq!(m.selected, 1);
    m.on_event("launcher_search", "down");
    assert_eq!(m.selected, 0);
    m.on_event("launcher_search", "down");
    match m.on_event("launcher_search", "enter") {
        LauncherAction::Launch(a) => assert_eq!(a.id, "b"),
        other => panic!("unexpected {:?}", other),
    }
    assert_eq!(m.selected, 0);
    assert!(m.query.is_empty());
    match m.on_event("app_launch_a", "click") {
        LauncherAction::Launch(a) => assert_eq!(a.command, "alpha"),
        other => panic!("unexpected {:?}", other),
    }
    assert!(matches!(m.on_event("app_launch_zzz", "click"), LauncherAction::Nothing));
    assert!(matches!(m.on_event("launcher", "open"), LauncherAction::Show));
}

#[test]
fn plans_try_terminals_in_order() {
    let direct = launch_plans("gimp --new", false, None).unwrap();
    assert_eq!(direct.len(), 1);
    assert_eq!(direct[0].program, "gimp");
    assert_eq!(direct[0].args, vec!["--new".to_string()]);
    let term = launch_plans("htop", true, Some("alacritty".to_string())).unwrap();
    assert_eq!(term.len(), 10);
    assert_eq!(term[0].program, "alacritty");
    assert_eq!(term[0].args, vec!["-e".to_string(), "htop".to_string()]);
    assert_eq!(term[1].program, "foot");
    assert_eq!(term[9].program, "xterm");
    assert!(launch_plans("", false, None).is_none());
    assert!(launch_plans("'open", false, None).is_none());
}

#[test]
fn desktop_files_are_admitted_once() {
    assert_eq!(desktop_file_id("/usr/share/applications/org.gnome.Files.desktop"), Some("org.gnome.Files".to_string()));
    assert_eq!(desktop_file_id("/x/readme.txt"), None);
    assert_eq!(desktop_file_id("/x/.desktop"), None);
    let mut seen = Vec::new();
    assert_eq!(admit_desktop_file(&mut seen, "/a/foo.desktop"), Some("foo".to_string()));
    assert_eq!(admit_desktop_file(&mut seen, "/b/foo.desktop"), None);
    assert_eq!(seen, vec!["foo".to_string()]);
}

#[test]
fn apps_sort_by_name_case_blind() {
    let sorted = sort_apps(vec![app("1", "beta", ""), app("2", "Alpha", ""), app("3", "alpha", ""), app("4", "Gamma", "")]);
    let ids: Vec<&str> = sorted.iter().map(|a| a.id.as_str()).collect();
    assert_eq!(ids, vec!["2", "3", "1", "4"]);
}

#[test]
fn configured_dirs_are_added() {
    let base = vec!["/usr/share/applications".to_string()];
    let config = Json::Object(vec![
        ("application_dirs".to_string(), Json::Array(vec![Json::Str("/opt/a".to_string()), Json::Int(3), Json::Str("/usr/share/applications".to_string())])),
        ("home".to_string(), Json::Str("/home/z/".to_string())),
        ("xdg_data_dirs".to_string(), Json::Str("/nix/share:/opt/a".to_string())),
    ]);
    let dirs = search_dirs(&base, &config);
    assert_eq!(
        dirs,
        vec![
            "/home/z/.local/share/applications".to_string(),
            "/usr/share/applications".to_string(),
            "/opt/a".to_string(),
            "/nix/share/applications".to_string(),
            "/opt/a/applications".to_string(),
        ]
    );
}

fn strs(v: &[&str]) -> Vec<String> {
    v.iter().map(|s| s.to_string()).collect()
}

#[test]
fn exec_words_drop_codes_markers_and_final_dashes() {
    let kept = kept_exec_words(Some(strs(&["app", "%U", "@@u", "--x", "--"])), "ignored");
    assert_eq!(kept, strs(&["app", "--x"]));
    let fallback = kept_exec_words(None, "app  'half %f");
    assert_eq!(fallback, strs(&["app", "'half"]));
}

#[test]
fn plans_from_split_words() {
    assert!(plans_for_words(&Vec::new(), false, None).is_none());
    let direct = plans_for_words(&strs(&["gimp", "--new"]), false, None).unwrap();
    assert_eq!(direct.len(), 1);
    assert_eq!(direct[0].program, "gimp");
    assert_eq!(direct[0].args, strs(&["--new"]));
    let term = plans_for_words(&strs(&["htop"]), true, Some("foot".to_string())).unwrap();
    assert_eq!(term.len(), 10);
    assert_eq!(term[0].program, "foot");
}
