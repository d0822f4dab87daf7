use turbulance::{NodeType, PerformanceMonitor, TurbulanceParser, TurbulanceValue};

fn parse(text: &str) -> turbulance::TurbulanceScript {
    let mut parser = TurbulanceParser::new();
    parser.parse_script(text, "t").unwrap()
}

fn value_of(text: &str) -> TurbulanceValue {
    let script = parse(text);
    let node = &script.nodes[0];
    assert_eq!(node.node_type, NodeType::Variable);
    let (key, value) = &node.parameters[0];
    assert_eq!(key, "value");
    match value {
        TurbulanceValue::Str(s) => TurbulanceValue::Str(s.clone()),
        TurbulanceValue::Num(n) => TurbulanceValue::Num(*n),
        TurbulanceValue::Bool(b) => TurbulanceValue::Bool(*b),
        other => clone_shallow(other),
    }
}

fn clone_shallow(v: &TurbulanceValue) -> TurbulanceValue {
    match v {
        TurbulanceValue::Array(items) => {
            TurbulanceValue::Array(items.iter().map(clone_shallow).collect())
        }
        TurbulanceValue::Object(pairs) => TurbulanceValue::Object(
            pairs.iter().map(|(k, v)| (k.clone(), clone_shallow(v))).collect(),
        ),
        TurbulanceValue::Str(s) => TurbulanceValue::Str(s.clone()),
        TurbulanceValue::Num(n) => TurbulanceValue::Num(*n),
        TurbulanceValue::Bool(b) => TurbulanceValue::Bool(*b),
        TurbulanceValue::PipelineCall { stage, config } => TurbulanceValue::PipelineCall {
            stage: stage.clone(),
            config: config.iter().map(|(k, v)| (k.clone(), clone_shallow(v))).collect(),
        },
    }
}

#[test]
fn numbers_parse_in_milli() {
    match value_of("v = 2.5") {
        TurbulanceValue::Num(n) => assert_eq!(n, 2500),
        _ => panic!("expected a number"),
    }
    match value_of("v = -3") {
        TurbulanceValue::Num(n) => assert_eq!(n, -3000),
        _ => panic!("expected a number"),
    }
    match value_of("v = 1.75") {
        TurbulanceValue::Num(n) => assert_eq!(n, 1750),
        _ => panic!("expected a number"),
    }
    match value_of("v = 0.9") {
        TurbulanceValue::Num(n) => assert_eq!(n, 900),
        _ => panic!("expected a number"),
    }
}

#[test]
fn booleans_and_strings_parse() {
    assert!(matches!(value_of("v = true"), TurbulanceValue::Bool(true)));
    assert!(matches!(value_of("v = false"), TurbulanceValue::Bool(false)));
    match value_of("v = \"hello\"") {
        TurbulanceValue::Str(s) => assert_eq!(s, "hello"),
        _ => panic!("expected a string"),
    }
    match value_of("v = bare_name") {
        TurbulanceValue::Str(s) => assert_eq!(s, "bare_name"),
        _ => panic!("expected a string"),
    }
}

#[test]
fn arrays_parse_with_nesting() {
    match value_of("v = [1, \"two\", true]") {
        TurbulanceValue::Array(items) => {
            assert_eq!(items.len(), 3);
            assert!(matches!(items[0], TurbulanceValue::Num(1000)));
            match &items[1] {
                TurbulanceValue::Str(s) => assert_eq!(s, "two"),
                _ => panic!("expected a string"),
            }
            assert!(matches!(items[2], TurbulanceValue::Bool(true)));
        }
        _ => panic!("expected an array"),
    }
    match value_of("v = [[1, 2], [3]]") {
        TurbulanceValue::Array(items) => {
            assert_eq!(items.len(), 2);
            match &items[0] {
                TurbulanceValue::Array(inner) => assert_eq!(inner.len(), 2),
                _ => panic!("expected a nested array"),
            }
        }
        _ => panic!("expected an array"),
    }
}

#[test]
fn objects_parse_with_nesting() {
    match value_of("v = {\"a\": {\"b\": 2}, \"c\": 3}") {
        TurbulanceValue::Object(pairs) => {
            assert_eq!(pairs.len(), 2);
            assert_eq!(pairs[0].0, "a");
            match &pairs[0].1 {
                TurbulanceValue::Object(inner) => {
                    assert_eq!(inner[0].0, "b");
                    assert!(matches!(inner[0].1, TurbulanceValue::Num(2000)));
                }
                _ => panic!("expected a nested object"),
            }
            assert!(matches!(pairs[1].1, TurbulanceValue::Num(3000)));
        }
        _ => panic!("expected an object"),
    }
}

#[test]
fn commas_inside_quotes_do_not_split() {
    match value_of("v = [\"a,b\", 2]") {
        TurbulanceValue::Array(items) => {
            assert_eq!(items.len(), 2);
            match &items[0] {
                TurbulanceValue::Str(s) => assert_eq!(s, "a,b"),
                _ => panic!("expected a string"),
            }
        }
        _ => panic!("expected an array"),
    }
}

#[test]
fn line_kinds_are_classified_in_order() {
    let text = "// a comment\nproposition Check:\n    motion Hypothesis(\"claims hold\")\nfunxn helper(a, b):\ngiven x > 1:\nlocal(\"db\")\nv = 42\n???";
    let script = parse(text);
    let kinds: Vec<NodeType> = script.nodes.iter().map(|n| n.node_type).collect();
    assert_eq!(
        kinds,
        vec![
            NodeType::Comment,
            NodeType::Proposition,
            NodeType::Hypothesis,
            NodeType::Function,
            NodeType::Conditional,
            NodeType::DataSource,
            NodeType::Variable,
            NodeType::Expression,
        ]
    );
    assert_eq!(script.nodes[1].name, Some(String::from("Check")));
    assert_eq!(script.nodes[5].name, Some(String::from("db")));
    assert_eq!(script.propositions.len(), 1);
    assert_eq!(script.functions.len(), 1);
    assert_eq!(script.data_sources.len(), 1);
}

#[test]
fn children_attach_by_indentation() {
    let text = "proposition P:\n    motion Hypothesis(\"h\")\n    x = pipeline_stage(\"s\", {})\ntop = 1";
    let script = parse(text);
    assert_eq!(script.nodes[0].node_type, NodeType::Proposition);
    assert_eq!(script.nodes[0].children.len(), 2);
    assert_eq!(script.nodes[0].children[0].node_type, NodeType::Hypothesis);
    assert_eq!(script.nodes[0].children[1].node_type, NodeType::PipelineStage);
    // The dedented assignment attaches to nothing.
    assert_eq!(script.nodes[3].node_type, NodeType::Variable);
}

#[test]
fn hypothesis_text_is_extracted() {
    let script = parse("motion Hypothesis(\"water is wet\")");
    let node = &script.nodes[0];
    assert_eq!(node.node_type, NodeType::Hypothesis);
    let (key, value) = &node.parameters[0];
    assert_eq!(key, "hypothesis");
    match value {
        TurbulanceValue::Str(s) => assert_eq!(s, "water is wet"),
        _ => panic!("expected a string"),
    }
}

#[test]
fn pipeline_dependencies_are_inferred() {
    let script = parse("y = pipeline_stage(\"s\", {\"input\": \"x\", \"count\": 3})");
    let node = &script.pipeline_calls[0];
    assert_eq!(node.dependencies, vec![String::from("x")]);
    assert_eq!(script.dependencies.len(), 1);
    assert_eq!(script.dependencies[0].0, "y");
}

#[test]
fn line_numbers_count_from_one() {
    let script = parse("\n\nv = 1");
    assert_eq!(script.nodes[0].line_number, 3);
}

#[test]
fn parser_statistics_track_lines() {
    let mut parser = TurbulanceParser::new();
    parser.parse_script("a = 1\nb = 2", "t").unwrap();
    let stats = parser.get_statistics();
    assert_eq!(stats[0].0, "lines_parsed");
    assert_eq!(stats[0].1, 2000);
    assert_eq!(stats[1].0, "protocols_parsed");
    assert_eq!(stats[1].1, 1000);
    assert_eq!(stats[2].0, "parse_errors");
    assert_eq!(stats[2].1, 0);
    assert_eq!(stats[3].0, "error_rate");
    assert_eq!(stats[3].1, 0);
}

#[test]
fn milli_quantities_render_as_decimals() {
    assert_eq!(turbulance::json::milli_str(2500), "2.5");
    assert_eq!(turbulance::json::milli_str(2000), "2.0");
    assert_eq!(turbulance::json::milli_str(123), "0.123");
    assert_eq!(turbulance::json::milli_str(10), "0.01");
    assert_eq!(turbulance::json::dec_str(120), "120");
    assert_eq!(turbulance::json::dec_str(0), "0");
}

#[test]
fn json_strings_escape_specials() {
    let s = String::from("a\"b\\c\nd");
    assert_eq!(turbulance::json::json_string(&s), "\"a\\\"b\\\\c\\nd\"");
}

#[test]
fn monitor_tracks_timer_names() {
    let mut monitor = PerformanceMonitor::new();
    assert_eq!(monitor.get_metrics("work"), None);
    monitor.start_timer("work");
    assert!(monitor.get_metrics("work").is_some());
    assert!(monitor.stop_timer("work").is_some());
    assert_eq!(monitor.get_metrics("work"), None);
    assert_eq!(monitor.stop_timer("work"), None);
}

#[test]
fn hash_is_stable_within_a_process() {
    assert_eq!(turbulance::simple_hash("abc"), turbulance::simple_hash("abc"));
}

#[test]
fn timer_reports_a_time() {
    let timer = turbulance::Timer::new("t");
    let _ms = timer.elapsed_ms();
}
