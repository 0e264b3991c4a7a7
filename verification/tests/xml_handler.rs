use kic_script_gen::xml_handler::composite::evaluate_conditions;
use kic_script_gen::xml_handler::condition::Condition;
use kic_script_gen::xml_handler::events::trim_xml;
use kic_script_gen::xml_handler::group::parse_include;
use kic_script_gen::xml_handler::resources::{resource_position, Resource};
use kic_script_gen::script_aggregator::script_buffer::ScriptBuffer;
use kic_script_gen::xml_handler::composite::{lookup, Composite};
use kic_script_gen::xml_handler::condition::NumOrder;
use kic_script_gen::xml_handler::error::XMLHandlerError;
use kic_script_gen::xml_handler::events::{tokenize, XmlEvent};
use kic_script_gen::xml_handler::group::{parse_groups, Group, IncludeResult};
use kic_script_gen::xml_handler::resources::Resources;
use kic_script_gen::xml_handler::value_map::ValueMap;
use kic_script_gen::xml_handler::variable::{Variable, Variables};

fn float_order(a: &str, b: &str) -> Option<NumOrder> {
    let x = a.parse::<f64>().ok()?;
    let y = b.parse::<f64>().ok()?;
    Some(match x.partial_cmp(&y) {
        Some(std::cmp::Ordering::Less) => NumOrder::Less,
        Some(std::cmp::Ordering::Equal) => NumOrder::Equal,
        Some(std::cmp::Ordering::Greater) => NumOrder::Greater,
        None => NumOrder::Unordered,
    })
}

fn empty_resources() -> Resources {
    Resources::new(String::from("0.1.0"), vec![String::new(); 13])
}

fn parse_groups_from_xml(xml: &str) -> Result<Vec<Group>, XMLHandlerError> {
    parse_groups(xml, &empty_resources())
}

fn parse_composite(xml: &str) -> Composite {
    let events = tokenize(xml);
    let mut pos = 0;
    loop {
        match &events[pos] {
            XmlEvent::Start(tag) if tag.name == "composite" => {
                pos += 1;
                return Composite::parse_composite(&events, &mut pos, tag, &empty_resources()).unwrap();
            }
            XmlEvent::Eof => panic!("composite element not found"),
            _ => pos += 1,
        }
    }
}

fn parse_variable_from_xml(xml: &str) -> Result<Variables, XMLHandlerError> {
    let events = tokenize(xml);
    let mut pos = 0;
    let mut variables: Vec<Variable> = Vec::new();
    loop {
        match &events[pos] {
            XmlEvent::Error(m) => {
                return Err(XMLHandlerError::ParseError { message: m.clone() });
            }
            XmlEvent::Start(tag) if tag.name == "variable" => {
                pos += 1;
                variables.push(Variable::parse_variable(&events, &mut pos, tag)?);
            }
            XmlEvent::End(name) if name == "variables" => {
                return Ok(Variables { variable_array: variables });
            }
            XmlEvent::Eof => panic!("variables element not closed"),
            _ => pos += 1,
        }
    }
}

#[test]
fn repeated_composite_applies_parent_substitutions_for_six_values() {
    let mut composite = parse_composite(
        r#"<composite repeat="ITEMS">
                <substitute name="ITEMS:VALUE">%VALUE%</substitute>
                <composite>
                    <snippet>value=%VALUE%</snippet>
                </composite>
            </composite>"#,
    );
    let mut values = ValueMap::new();
    values.insert(
        "ITEMS".to_string(),
        "item1,item2,item3,item4,item5,item6".to_string(),
    );
    for index in 1..=6 {
        values.insert(format!("item{index}:VALUE"), index.to_string());
    }
    let mut script_buffer = ScriptBuffer::new();

    composite.to_script(&mut script_buffer, &values, &float_order);

    assert_eq!(
        script_buffer.to_string(),
        "value=1\nvalue=2\nvalue=3\nvalue=4\nvalue=5\nvalue=6\n"
    );

    let IncludeResult::Composite(child) = &composite.sub_children[0] else {
        panic!("expected nested composite");
    };
    let IncludeResult::Snippet(snippet) = &child.sub_children[0] else {
        panic!("expected nested snippet");
    };
    let mut scope = snippet.parent.as_deref();
    let mut scope_depth = 0;
    while let Some(current_scope) = scope {
        scope_depth += 1;
        scope = current_scope.parent.as_deref();
    }
    assert_eq!(scope_depth, 2);
}

#[test]
fn test_parse_group_with_valid_attributes() {
    // `gg=` has no quoted value: quick-xml refuses the attribute, and the
    // group's attributes are read with that error passed on, so the document
    // is reported as an error rather than parsed.
    let xml = r#"<group gg= id="test_group" type="example_type"></group>"#;
    assert!(parse_groups_from_xml(xml).is_err());
}

#[test]
fn test_parse_group_with_missing_attributes() {
    let xml = r#"<group id="test_group"></group>"#;

    match parse_groups_from_xml(xml) {
        Ok(groups) => {
            assert_eq!(groups[0].id, "test_group");
            assert_eq!(groups[0].type_, "");
        }
        Err(e) => assert!(false, "Test failed due to error: {}", e.message()),
    }
}

#[test]
fn test_parse_groups_from_xml_error() {
    let invalid_xml = r#"<groupA id="test_group" type="example_type"></group>"#;

    let result = parse_groups_from_xml(invalid_xml);
    assert!(result.is_err(), "Expected an error, but got Ok");

    if let Err(e) = result {
        assert_eq!(
            e.message(),
            "XML parsing error: ill-formed document: expected `</groupA>`, but `</group>` was found"
        );
    }
}

#[test]
fn test_parse_composite_with_valid_attributes() {
    let xml = r#"<group id="test_group" type="example_type">
                            <composite name="test_composite" type="example_type">
                            </composite>
                        </group>"#;

    match parse_groups_from_xml(xml) {
        Ok(groups) => {
            assert_eq!(groups[0].children.len(), 1);
            if let IncludeResult::Composite(composite) = &groups[0].children[0] {
                assert_eq!(composite.name, "test_composite");
                assert_eq!(composite.type_.as_deref(), Some("example_type"));
            } else {
                assert!(false);
            }
        }
        Err(e) => assert!(false, "Test failed due to error: {}", e.message()),
    }
}

#[test]
fn test_parse_composite_with_substitutions() {
    let xml = r#"<group id="test_group" type="example_type"> 
                                <composite name="test_composite" type="example_type">
                                    <substitute name="test_substitute1">test_value1</substitute>
                                    <substitute name="test_substitute2">test_value2</substitute>
                                </composite>
                        </group>"#;

    match parse_groups_from_xml(xml) {
        Ok(groups) => {
            assert_eq!(groups[0].children.len(), 1);
            if let IncludeResult::Composite(composite) = &groups[0].children[0] {
                assert_eq!(composite.name, "test_composite");
                assert_eq!(composite.type_.as_deref(), Some("example_type"));
                assert_eq!(composite.substitutions.len(), 2);
                for (i, sub) in composite.substitutions.iter().enumerate() {
                    assert_eq!(sub.name, format!("test_substitute{}", i + 1));
                    assert_eq!(sub.value, format!("test_value{}", i + 1));
                }
            } else {
                assert!(false);
            }
        }
        Err(e) => assert!(false, "Test failed due to error: {}", e.message()),
    }
}

#[test]
fn test_parse_composite_with_snippet() {
    let xml = r#"<group id="test_group" type="example_type">
                                <composite>
                                        <snippet>
                                            <condition name="CONDITION_1">VALUE_1</condition>
                                            sample code for snippet - 1
                                        </snippet>
                                        <snippet>
                                            <condition name="CONDITION_2">VALUE_2</condition>
                                            sample code for snippet - 2
                                        </snippet>
                                </composite>
                        </group>"#;

    match parse_groups_from_xml(xml) {
        Ok(groups) => {
            assert_eq!(groups[0].children.len(), 1);
            if let IncludeResult::Composite(composite) = &groups[0].children[0] {
                assert_eq!(composite.name, "");
                assert_eq!(composite.type_.as_deref(), None);
                assert_eq!(composite.sub_children.len(), 2);

                for (i, child) in composite.sub_children.iter().enumerate() {
                    if let IncludeResult::Snippet(snippet) = child {
                        assert_eq!(snippet.name, "");
                        assert_eq!(snippet.repeat, "");
                        assert!(snippet
                            .code_snippet
                            .contains(&format!("sample code for snippet - {}", i + 1)));
                        assert_eq!(snippet.conditions.len(), 1);
                        assert_eq!(snippet.conditions[0].name, format!("CONDITION_{}", i + 1));
                        assert_eq!(snippet.conditions[0].value, format!("VALUE_{}", i + 1));
                    } else {
                        assert!(false);
                    }
                }
            } else {
                assert!(false);
            }
        }
        Err(e) => assert!(false, "Test failed due to error: {}", e.message()),
    }
}

#[test]
fn test_variable_with_error() {
    let invalid_xml = r#"<variables>
                                <variable id="var1">
                                    <default>&1</default>
                                    <constraints>
                                        <min>1</min>
                                        <max>100</max>
                                    </constraints>
                            </variable>
                        </variables>"#;

    let result = parse_variable_from_xml(invalid_xml);
    assert!(result.is_err(), "Expected an error, but got Ok");

    if let Err(e) = result {
        assert_eq!(
            e.message(),
            "XML parsing error: Error while escaping character at range 0..2: Cannot find ';' after '&'"
        );
    }
}

#[test]
fn test_variable_with_valid_attributes() {
    let xml = r#"<variables>
                                <variable id="var1">
                                    <default>1</default>
                                    <constraints>
                                        <min>1</min>
                                        <max>100</max>
                                    </constraints>
                            </variable>
                        </variables>"#;

    match parse_variable_from_xml(xml) {
        Ok(vars) => {
            assert_eq!(vars.variable_array.len(), 1);
            assert_eq!(vars.variable_array[0].id, "var1");
            assert_eq!(vars.variable_array[0].default, "1");
            assert_eq!(vars.variable_array[0].value_attr, "");
            assert_eq!(vars.variable_array[0].depends_array.len(), 0);
            assert_eq!(vars.variable_array[0].ref_array.len(), 0);
            assert!(vars.variable_array[0].constraint.is_some());

            match vars.variable_array[0].constraint {
                Some(ref c) => {
                    let min: f64 = c.min.as_deref().unwrap_or("0").parse().unwrap();
                    let max: f64 = c.max.as_deref().unwrap_or("0").parse().unwrap();
                    assert_eq!(min, 1.0);
                    assert_eq!(max, 100.0);
                }
                None => panic!("The constraint of the first variable was `None`"),
            }
        }
        Err(e) => panic!("Test failed due to error: {}", e.message()),
    }
}

#[test]
fn test_variable_with_depends_tag() {
    let xml = r#"<variables>
                                <variable id="var1">
                                    <depends ref="varFunction">
                                        <case value="case_1">
                                            <default>0</default>
                                            <reference id="ref_id_1"/>
                                        </case>
                                        <case value="case_2">
                                            <default>0</default>
                                            <reference id="ref_id_2"/>
                                        </case>
                                    </depends>
	                        </variable>
                        </variables>"#;

    match parse_variable_from_xml(xml) {
        Ok(vars) => {
            assert_eq!(vars.variable_array.len(), 1);
            assert_eq!(vars.variable_array[0].id, "var1");
            assert_eq!(vars.variable_array[0].default, "");
            assert_eq!(vars.variable_array[0].value_attr, "");
            assert_eq!(vars.variable_array[0].depends_array.len(), 1);
            assert_eq!(vars.variable_array[0].ref_array.len(), 0);
            assert!(vars.variable_array[0].constraint.is_none());

            let depend = &vars.variable_array[0].depends_array[0];
            assert_eq!(depend.re_f, "varFunction");
            assert_eq!(depend._variables.len(), 2);

            for (i, case) in depend._variables.iter().enumerate() {
                assert_eq!(case.value_attr, format!("case_{}", i + 1));
                assert_eq!(case.default, "0");
                assert_eq!(case.depends_array.len(), 0);
                assert_eq!(case.ref_array.len(), 1);
                assert!(case.constraint.is_none());

                let reference = &case.ref_array[0];
                assert_eq!(reference.id, format!("ref_id_{}", i + 1));
            }
        }
        Err(e) => panic!("Test failed due to error: {}", e.message()),
    }
}

#[test]
fn lookup_resolves_scoped_symbols() {
    let mut values = ValueMap::new();
    values.insert("DEVICES:".to_string(), "bias1".to_string());
    values.insert("bias1:ASSIGN".to_string(), "smua".to_string());
    values.insert("PLAIN".to_string(), "x".to_string());
    assert_eq!(lookup(&values, "DEVICES:ASSIGN"), "smua");
    assert_eq!(lookup(&values, "PLAIN"), "x");
    assert_eq!(lookup(&values, "MISSING:ASSIGN"), "");
    assert_eq!(lookup(&values, "UNKNOWN"), "");
}

fn check(name: &str, op: &str, value: &str, object: &str) -> bool {
    let mut values = ValueMap::new();
    values.insert(name.to_string(), object.to_string());
    let conds = vec![Condition::new(name.to_string(), op.to_string(), value.to_string())];
    evaluate_conditions(&conds, &values, &float_order)
}

#[test]
fn condition_operators() {
    assert!(check("MODE", "ne", "LIN", "LOG"));
    assert!(!check("MODE", "ne", "LIN", "LIN"));
    assert!(check("N", "gt", "5", "10"));
    assert!(!check("N", "gt", "5", "5"));
    assert!(check("N", "ge", "5", "5"));
    assert!(!check("N", "lt", "5", "5"));
    assert!(check("N", "le", "5", "5"));
    assert!(!check("N", "le", "5", "6"));
    assert!(!check("N", "gt", "5", "abc"));
    assert!(check("CH", "in", "a,b,c", "b"));
    assert!(check("CH", "in", "a,b,c", "c"));
    assert!(!check("CH", "in", "a,b,c", "x"));
    assert!(!check("CH", "in", "ab,c", "b"));
    assert!(check("MODE", "in", "LINE,LIN", "LIN"));
    assert!(!check("MODE", "in", "LINE,LOG", "LIN"));
    assert!(check("X", "regex", "^a$", "zzz"));
    assert!(check("X", "", "same", "same"));
    assert!(!check("X", "eq", "same", "other"));
}

#[test]
fn conditions_all_must_hold() {
    let mut values = ValueMap::new();
    values.insert("A".to_string(), "1".to_string());
    values.insert("B".to_string(), "2".to_string());
    let both = vec![
        Condition::new("A".to_string(), "".to_string(), "1".to_string()),
        Condition::new("B".to_string(), "gt".to_string(), "1".to_string()),
    ];
    assert!(evaluate_conditions(&both, &values, &float_order));
    let one_fails = vec![
        Condition::new("A".to_string(), "".to_string(), "1".to_string()),
        Condition::new("B".to_string(), "lt".to_string(), "1".to_string()),
    ];
    assert!(!evaluate_conditions(&one_fails, &values, &float_order));
    assert!(evaluate_conditions(&Vec::new(), &values, &float_order));
}

#[test]
fn rejected_composite_writes_nothing() {
    let mut composite = parse_composite(
        r#"<composite>
                <condition name="MODE" op="ne">LIN</condition>
                <snippet>never</snippet>
            </composite>"#,
    );
    let mut values = ValueMap::new();
    values.insert("MODE".to_string(), "LIN".to_string());
    let mut script_buffer = ScriptBuffer::new();
    composite.to_script(&mut script_buffer, &values, &float_order);
    assert_eq!(script_buffer.to_string(), "");
}

#[test]
fn composite_indent_and_repeat_count() {
    let mut composite = parse_composite(
        r#"<composite indent="default" repeat="LIST">
                <substitute name="LIST.LOOP-COUNT">%N%</substitute>
                <substitute name="LIST:">%V%</substitute>
                <snippet>%N%=%V%</snippet>
            </composite>"#,
    );
    let mut values = ValueMap::new();
    values.insert("LIST".to_string(), "x,y".to_string());
    let mut script_buffer = ScriptBuffer::new();
    composite.to_script(&mut script_buffer, &values, &float_order);
    assert_eq!(script_buffer.to_string(), "    1=x\n    2=y\n");
}

#[test]
fn unbound_repeat_writes_nothing() {
    let mut composite = parse_composite(
        r#"<composite repeat="MISSING"><snippet>x</snippet></composite>"#,
    );
    let mut script_buffer = ScriptBuffer::new();
    composite.to_script(&mut script_buffer, &ValueMap::new(), &float_order);
    assert_eq!(script_buffer.to_string(), "");
}

#[test]
fn error_messages() {
    assert_eq!(
        XMLHandlerError::UnknownXMLFileError { file_name: "X.xml".to_string() }.message(),
        "Unknown XML file error: X.xml"
    );
    assert_eq!(XMLHandlerError::ParseFloatError.message(), "error converting to a float from a string");
    assert_eq!(
        XMLHandlerError::UnexpectedEof { element: "group".to_string() }.message(),
        "XML parsing error: the document ends inside <group>"
    );
    assert_eq!(
        XMLHandlerError::IOError { message: "gone".to_string() }.message(),
        "IO error occurred: gone"
    );
}

#[test]
fn unknown_include_is_an_error_that_a_group_skips() {
    let events = tokenize(r#"<include path="NOT_A_RESOURCE"/>"#);
    let tag = events
        .iter()
        .find_map(|e| match e {
            XmlEvent::Empty(t) => Some(t),
            _ => None,
        })
        .expect("an include tag");
    match parse_include(tag, &empty_resources()) {
        Err(e) => assert_eq!(e.message(), "Unknown XML file error: NOT_A_RESOURCE"),
        Ok(_) => panic!("expected an error"),
    }
    let groups = parse_groups_from_xml(
        r#"<group id="g" type="t"><include path="NOT_A_RESOURCE"/></group>"#,
    )
    .expect("the group parses");
    assert_eq!(groups.len(), 1);
    assert!(groups[0].children.is_empty());
}

#[test]
fn unterminated_group_is_an_error() {
    match parse_groups_from_xml(r#"<group id="g" type="t">"#) {
        Err(XMLHandlerError::UnexpectedEof { element }) => assert_eq!(element, "group"),
        other => panic!("unexpected {:?}", other.map(|g| g.len())),
    }
}

#[test]
fn resources_fill_in_the_version() {
    let mut sources = vec![String::new(); 13];
    sources[2] = String::from("<x v=\"!<!<VERSION>!>!\"/>");
    let resources = Resources::new(String::from("2.0"), sources);
    assert_eq!(resources.text_of("INITIALIZE_XML"), Some(String::from("<x v=\"2.0\"/>")));
    assert_eq!(resources.text_of("NOPE"), None);
    assert_eq!(resource_position("FINALIZE_XML"), Some(8));
    assert!(Resource::match_resource("SUPPORT_XML", &resources).is_some());
    assert!(Resource::match_resource("support_xml", &resources).is_none());
}

#[test]
fn text_is_unescaped_and_attributes_read() {
    let composite = parse_composite(
        r#"<composite name="c1" repeat="R&amp;D">
                <condition name="A" op="ne">a &lt; b &amp;&amp; c</condition>
            </composite>"#,
    );
    assert_eq!(composite.name, "c1");
    assert_eq!(composite.repeat, "R&amp;D");
    assert_eq!(composite.conditions[0].value, "a < b && c");
    assert!(parse_groups_from_xml(r#"<group gg= id="g1" type="T"></group>"#).is_err());
    assert_eq!(trim_xml(" \n x y \t"), "x y");
}
