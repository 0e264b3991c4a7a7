use kic_script_gen::script_aggregator::indent_engine::IndentEngine;
use kic_script_gen::script_aggregator::script_buffer::ScriptBuffer;

fn chars(s: &str) -> Vec<char> {
    s.chars().collect()
}

#[test]
fn new_buffer_is_empty() {
    let buffer = ScriptBuffer::new();
    assert_eq!(buffer.to_string(), "");
}

#[test]
fn sections_are_joined_preamble_body_postamble() {
    let mut buffer = ScriptBuffer::new();
    buffer.postamble_append(String::from("post"));
    buffer.body_append(String::from("body"));
    buffer.preamble_append(String::from("pre"));
    assert_eq!(buffer.to_string(), "pre\nbody\npost\n");
}

#[test]
fn manual_indent_trims_and_prefixes() {
    let mut buffer = ScriptBuffer::new();
    buffer.set_indent(2);
    buffer.body_append(String::from("   x = 1   "));
    buffer.set_indent(0);
    buffer.body_append(String::from("  y = 2"));
    assert_eq!(buffer.to_string(), "  x = 1\n  y = 2\n");
}

#[test]
fn change_indent_is_kept_between_zero_and_twenty() {
    let mut buffer = ScriptBuffer::new();
    buffer.change_indent(25);
    buffer.body_append(String::from("a"));
    buffer.change_indent(-30);
    buffer.body_append(String::from("b"));
    buffer.change_indent(3);
    buffer.change_indent(-1);
    buffer.body_append(String::from("c"));
    assert_eq!(
        buffer.to_string(),
        format!("{}a\nb\n  c\n", " ".repeat(20))
    );
}

#[test]
fn set_indent_above_limit_is_ignored() {
    let mut buffer = ScriptBuffer::new();
    buffer.set_indent(3);
    buffer.set_indent(21);
    buffer.body_append(String::from("z"));
    assert_eq!(buffer.to_string(), "   z\n");
}

#[test]
fn change_indent_round_trip() {
    let mut buffer = ScriptBuffer::new();
    buffer.change_indent(ScriptBuffer::DEFAULT_INDENT);
    buffer.change_indent(-ScriptBuffer::DEFAULT_INDENT);
    buffer.body_append(String::from("x"));
    assert_eq!(buffer.to_string(), "x\n");
}

#[test]
fn unique_names_get_numbered() {
    let mut buffer = ScriptBuffer::new();
    assert_eq!(buffer.get_unique_name(String::from("_Sweep")), "_Sweep");
    assert_eq!(buffer.get_unique_name(String::from("_Sweep")), "_Sweep1");
    assert_eq!(buffer.get_unique_name(String::from("_Sweep")), "_Sweep2");
    assert_eq!(buffer.get_unique_name(String::from("_Init")), "_Init");
}

#[test]
fn auto_indent_follows_lua_blocks() {
    let mut buffer = ScriptBuffer::new();
    buffer.set_auto_indent(true);
    for line in [
        "function f()",
        "if x then",
        "y = 1",
        "else",
        "y = 2",
        "end",
        "for i = 1, 3 do z = i end",
        "end",
    ] {
        buffer.body_append(String::from(line));
    }
    assert_eq!(
        buffer.to_string(),
        "function f()\n    if x then\n        y = 1\n    else\n        y = 2\n    end\n    for i = 1, 3 do z = i end\nend\n"
    );
}

#[test]
fn auto_indent_ignores_keywords_in_comments() {
    let mut buffer = ScriptBuffer::new();
    buffer.set_auto_indent(true);
    buffer.body_append(String::from("x = 1 -- then do function"));
    buffer.body_append(String::from("--[[ function"));
    buffer.body_append(String::from("do ]]"));
    buffer.body_append(String::from("y = 2"));
    assert_eq!(buffer.to_string(), "x = 1 -- then do function\n--[[ function\ndo ]]\n    y = 2\n");
}

#[test]
fn indent_engine_apply_tables() {
    let mut engine = IndentEngine::new(String::from("  "));
    let mut out = String::new();
    engine.apply(&mut out, "t = {");
    out.push('\n');
    engine.apply(&mut out, "1,");
    out.push('\n');
    engine.apply(&mut out, "}");
    assert_eq!(out, "t = {\n  1,\n}");
}

#[test]
fn indent_engine_find_whole_words() {
    assert!(IndentEngine::find(&chars("if a then"), &chars("then")));
    assert!(!IndentEngine::find(&chars("thence"), &chars("then")));
    assert!(!IndentEngine::find(&chars("athen"), &chars("then")));
    assert!(IndentEngine::find(&chars("(end)"), &chars("end")));
    assert!(!IndentEngine::find(&chars("x = 1"), &chars("end")));
    // a later standalone occurrence counts
    assert!(IndentEngine::find(&chars("endless end"), &chars("end")));
    assert!(IndentEngine::find(&chars("for _, done in pairs(t) do"), &chars("do")));
    assert!(!IndentEngine::find(&chars("done undo"), &chars("do")));
}

#[test]
fn indent_engine_pre_and_post_process() {
    let mut engine = IndentEngine::new(String::from("    "));
    engine.pre_process("while true do");
    engine.post_process();
    let mut out = String::new();
    engine.apply(&mut out, "x()");
    assert_eq!(out, "    x()");
}

#[test]
fn indent_engine_indents_by_whole_steps() {
    let mut engine = IndentEngine::new(String::from("  "));
    let mut out = String::new();
    for line in ["function f()", "for i = 1, 3 do", "if i > 1 then", "x = i", "else", "y = i", "end", "end", "end"] {
        engine.apply(&mut out, line);
        out.push('\n');
    }
    for line in out.lines() {
        let lead = line.len() - line.trim_start().len();
        assert_eq!(lead % 2, 0);
    }
    assert_eq!(
        out,
        "function f()\n  for i = 1, 3 do\n    if i > 1 then\n      x = i\n    else\n      y = i\n    end\n  end\nend\n"
    );
}
