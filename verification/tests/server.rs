use kic_script_gen::server::{
    classify_request, classify_stdin_line, rewrite_resource_urls, ChunkAssembler, RequestKind,
    ScriptPath, StdinCommand, BASE_URL,
};

#[test]
fn script_path_defaults() {
    let p = ScriptPath::new();
    assert_eq!(p.folder, "C:\\workfolder\\");
    assert_eq!(p.session, "sample.tsp");
    let q = ScriptPath { session: String::from("run1"), folder: String::from("/tmp") };
    assert_eq!(q.file_name(), "run1.tsp");
}

#[test]
fn stdin_lines_are_classified_by_first_matching_rule() {
    assert_eq!(classify_stdin_line("  shutdown \n"), StdinCommand::Shutdown);
    assert_eq!(classify_stdin_line("shutdown now"), StdinCommand::Ignore);
    assert_eq!(
        classify_stdin_line(r#"{"session":"a","folder":"b","systems":[]}"#),
        StdinCommand::WorkFolder
    );
    assert_eq!(classify_stdin_line(r#"{"systems":[]}"#), StdinCommand::SystemConfig);
    assert_eq!(classify_stdin_line(r#"{"lineFrequency":60}"#), StdinCommand::LineFrequency);
    assert_eq!(classify_stdin_line("refresh"), StdinCommand::Refresh);
    assert_eq!(classify_stdin_line("reset"), StdinCommand::Reset);
    assert_eq!(classify_stdin_line(r#"{"request_type":"x"}"#), StdinCommand::SavedConfig);
    assert_eq!(classify_stdin_line("hello"), StdinCommand::Ignore);
}

#[test]
fn request_types_are_classified() {
    assert_eq!(classify_request(&String::from("get_data")), RequestKind::GetData);
    assert_eq!(classify_request(&String::from("evaluate_data")), RequestKind::EvaluateData);
    assert_eq!(classify_request(&String::from("reallocation")), RequestKind::Reallocation);
    assert_eq!(classify_request(&String::from("open_script")), RequestKind::OpenScript);
    assert_eq!(classify_request(&String::from("other")), RequestKind::Unknown);
}

#[test]
fn chunks_are_joined_in_order_once_all_arrived() {
    let mut a = ChunkAssembler::new();
    let id = String::from("m1");
    assert_eq!(a.add_chunk(&id, 2, 3, String::from("c")), None);
    assert_eq!(a.add_chunk(&String::from("m2"), 0, 1, String::from("solo")), Some(String::from("solo")));
    assert_eq!(a.add_chunk(&id, 0, 3, String::from("a")), None);
    assert_eq!(a.slot_count(&id, 99), 3);
    assert_eq!(a.add_chunk(&id, 1, 3, String::from("b")), Some(String::from("abc")));
    // the message is forgotten once complete
    assert_eq!(a.slot_count(&id, 7), 7);
}

#[test]
fn repeated_chunk_replaces_the_earlier_one() {
    let mut a = ChunkAssembler::new();
    let id = String::from("m");
    assert_eq!(a.add_chunk(&id, 0, 2, String::from("x")), None);
    assert_eq!(a.add_chunk(&id, 0, 2, String::from("y")), None);
    assert_eq!(a.add_chunk(&id, 1, 2, String::from("z")), Some(String::from("yz")));
}

#[test]
fn resource_urls_become_absolute() {
    let html = String::from(r#"<script src="main.js"></script><link href="style.css">"#);
    assert_eq!(
        rewrite_resource_urls(&html, BASE_URL),
        r#"<script src="http://127.0.0.1:27950/main.js"></script><link href="http://127.0.0.1:27950/style.css">"#
    );
}
