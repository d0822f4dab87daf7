use turbulance::{
    CompiledProtocol, ExecutionMode, ExecutionStatus, ExecutionStep, QualityMetrics,
    ResourceRequirements, SelectedStrategy, StepOutcome, TurbulanceCompiler,
    TurbulanceOrchestrator, TurbulanceParser,
};

fn parse(text: &str, name: &str) -> turbulance::TurbulanceScript {
    let mut parser = TurbulanceParser::new();
    parser.parse_script(text, name).unwrap()
}

fn compile(text: &str, name: &str) -> CompiledProtocol {
    let script = parse(text, name);
    let mut compiler = TurbulanceCompiler::new();
    compiler.compile_protocol(&script).unwrap()
}

fn good_outcome() -> StepOutcome {
    StepOutcome {
        success: true,
        output: String::from("{\"ok\":true}"),
        error_message: String::new(),
        elapsed_millis: 1000,
        quality: QualityMetrics {
            accuracy: 800,
            completeness: 800,
            relevance: 800,
            confidence: 800,
            novelty: 800,
            coherence: 800,
        },
    }
}

fn bad_outcome(msg: &str) -> StepOutcome {
    StepOutcome {
        success: false,
        output: String::new(),
        error_message: String::from(msg),
        elapsed_millis: 500,
        quality: QualityMetrics {
            accuracy: 0,
            completeness: 0,
            relevance: 0,
            confidence: 0,
            novelty: 0,
            coherence: 0,
        },
    }
}

fn plain_step(id: &str, var: &str) -> ExecutionStep {
    ExecutionStep {
        step_id: String::from(id),
        stage_name: String::from("stage0_query_processor"),
        variable_name: String::from(var),
        parameters: Vec::new(),
        dependencies: Vec::new(),
        resource_requirements: ResourceRequirements {
            cpu_cores: 1000,
            memory_gb: 2000,
            gpu_units: 0,
            network_bandwidth_mbps: 10000,
            estimated_duration_seconds: 5000,
            storage_gb: 100,
        },
        line_number: 1,
        priority: 1000,
        timeout_seconds: 15000,
    }
}

#[test]
fn end_to_end_two_steps() {
    let text = "x = pipeline_stage(\"stage0_query_processor\", {})\ny = pipeline_stage(\"stage1_semantic_atdb\", {\"input\": \"x\"})";
    let protocol = compile(text, "proto");
    assert_eq!(protocol.execution_steps.len(), 2);
    let y = &protocol.execution_steps[1];
    assert_eq!(y.variable_name, "y");
    // y's resolved dependencies are recorded in the graph under y's id.
    let ydeps = &protocol
        .dependency_graph
        .iter()
        .find(|e| e.0 == "proto_y")
        .unwrap()
        .1;
    assert!(ydeps.contains(&String::from("proto_x")));
    assert_eq!(
        protocol.execution_order,
        vec![String::from("proto_x"), String::from("proto_y")]
    );
    // Single-member layers yield no parallel groups.
    assert!(protocol.parallel_groups.is_empty());
}

#[test]
fn cycle_is_rejected() {
    let text = "a = pipeline_stage(\"s\", {\"ref\": \"b\"})\nb = pipeline_stage(\"t\", {\"ref\": \"a\"})";
    let script = parse(text, "p");
    let mut compiler = TurbulanceCompiler::new();
    let err = compiler.compile_protocol(&script).unwrap_err();
    assert_eq!(err.message(), "Circular dependency detected");
}

#[test]
fn negative_override_is_rejected() {
    let text = "a = pipeline_stage(\"query_processor\", {\"cpu_cores\": -1})";
    let script = parse(text, "p");
    let mut compiler = TurbulanceCompiler::new();
    let err = compiler.compile_protocol(&script).unwrap_err();
    assert_eq!(err.message(), "Negative resource override in configuration");
}

#[test]
fn duplicate_variable_is_rejected() {
    let text = "x = pipeline_stage(\"s\", {})\nx = pipeline_stage(\"t\", {})";
    let script = parse(text, "p");
    let mut compiler = TurbulanceCompiler::new();
    let err = compiler.compile_protocol(&script).unwrap_err();
    assert_eq!(err.message(), "Duplicate variable name in protocol");
}

#[test]
fn missing_stage_name_is_rejected() {
    let mut script = parse("x = pipeline_stage(\"s\", {})", "p");
    // Strip the stage parameter from the pipeline node.
    script.pipeline_calls[0].parameters.clear();
    let mut compiler = TurbulanceCompiler::new();
    let err = compiler.compile_protocol(&script).unwrap_err();
    assert_eq!(err.message(), "Pipeline stage missing stage name");
}

#[test]
fn missing_variable_name_is_rejected() {
    let mut script = parse("x = pipeline_stage(\"s\", {})", "p");
    script.pipeline_calls[0].name = None;
    let mut compiler = TurbulanceCompiler::new();
    let err = compiler.compile_protocol(&script).unwrap_err();
    assert_eq!(err.message(), "Pipeline stage missing variable name");
}

#[test]
fn compilation_is_deterministic() {
    let text = "a = pipeline_stage(\"query_processor\", {})\nb = pipeline_stage(\"semantic_atdb\", {\"input\": \"a\"})\nc = pipeline_stage(\"domain_knowledge\", {\"input\": \"a\"})";
    let p1 = compile(text, "proto");
    let p2 = compile(text, "proto");
    assert_eq!(p1.execution_order, p2.execution_order);
    assert_eq!(p1.parallel_groups, p2.parallel_groups);
    assert_eq!(p1.auxiliary_files.fs_content, p2.auxiliary_files.fs_content);
}

#[test]
fn independent_steps_compile_to_parallel() {
    let text = "a = pipeline_stage(\"query_processor\", {})\nb = pipeline_stage(\"semantic_atdb\", {})\nc = pipeline_stage(\"domain_knowledge\", {})";
    let protocol = compile(text, "p");
    assert_eq!(protocol.execution_mode, ExecutionMode::Parallel);
    assert_eq!(protocol.parallel_groups.len(), 1);
    assert_eq!(protocol.parallel_groups[0].len(), 3);
}

#[test]
fn linear_chain_compiles_to_sequential() {
    let text = "a = pipeline_stage(\"query_processor\", {})\nb = pipeline_stage(\"semantic_atdb\", {\"input\": \"a\"})\nc = pipeline_stage(\"domain_knowledge\", {\"input\": \"b\"})";
    let protocol = compile(text, "p");
    // Every step of a chain touches a dependency edge, so none is
    // independent.
    assert_eq!(protocol.execution_mode, ExecutionMode::Sequential);
    assert_eq!(
        protocol.execution_order,
        vec![String::from("p_a"), String::from("p_b"), String::from("p_c")]
    );
    assert!(protocol.parallel_groups.is_empty());
}

#[test]
fn mixed_graph_compiles_to_adaptive() {
    // One isolated stage beside a two-step chain: some steps independent,
    // some not, with a shallow graph and low fan-in.
    let text = "a = pipeline_stage(\"query_processor\", {})\nb = pipeline_stage(\"semantic_atdb\", {})\nc = pipeline_stage(\"domain_knowledge\", {\"input\": \"b\"})";
    let protocol = compile(text, "p");
    assert_eq!(protocol.execution_mode, ExecutionMode::Adaptive);
}

#[test]
fn parallel_totals_take_the_maximum() {
    let text = "a = pipeline_stage(\"query_processor\", {\"cpu_cores\": 2})\nb = pipeline_stage(\"query_processor2\", {\"cpu_cores\": 3})\nc = pipeline_stage(\"query_processor3\", {\"cpu_cores\": 1})";
    let protocol = compile(text, "p");
    assert_eq!(protocol.execution_mode, ExecutionMode::Parallel);
    assert_eq!(protocol.total_resource_requirements.cpu_cores, 3000);
    // The sequential aggregate books the mean instead.
    let seq = turbulance::totals::calculate_total_resources(
        &protocol.execution_steps,
        ExecutionMode::Sequential,
    );
    assert_eq!(seq.cpu_cores, 2000);
}

#[test]
fn parallel_run_completes_both_steps() {
    let text = "a = pipeline_stage(\"query_processor\", {})\nb = pipeline_stage(\"semantic_atdb\", {})";
    let protocol = compile(text, "run");
    assert_eq!(protocol.execution_mode, ExecutionMode::Parallel);
    assert_eq!(protocol.parallel_groups.len(), 1);
    assert_eq!(protocol.parallel_groups[0].len(), 2);
    let outcomes = vec![good_outcome(), good_outcome()];
    let mut orchestrator = TurbulanceOrchestrator::new();
    let result = orchestrator
        .execute_protocol(&protocol, &outcomes, SelectedStrategy::Adaptive)
        .unwrap();
    assert_eq!(result.execution_statistics.steps_completed, 2);
    assert_eq!(result.execution_statistics.steps_failed, 0);
    assert_eq!(result.overall_status, ExecutionStatus::Completed);
    assert_eq!(result.overall_quality_metrics.accuracy, 800);
}

#[test]
fn sequential_failure_halts_the_run() {
    let protocol = CompiledProtocol {
        protocol_name: String::from("p"),
        execution_steps: vec![
            plain_step("p_a", "a"),
            plain_step("p_b", "b"),
            plain_step("p_c", "c"),
        ],
        execution_mode: ExecutionMode::Sequential,
        total_resource_requirements: ResourceRequirements {
            cpu_cores: 1000,
            memory_gb: 2000,
            gpu_units: 0,
            network_bandwidth_mbps: 10000,
            estimated_duration_seconds: 15000,
            storage_gb: 300,
        },
        dependency_graph: Vec::new(),
        execution_order: vec![
            String::from("p_a"),
            String::from("p_b"),
            String::from("p_c"),
        ],
        parallel_groups: Vec::new(),
        auxiliary_files: turbulance::AuxiliaryFiles {
            fs_content: String::new(),
            ghd_content: String::new(),
            hre_content: String::new(),
        },
        optimization_hints: Vec::new(),
    };
    let outcomes = vec![good_outcome(), bad_outcome("stage exploded"), good_outcome()];
    let mut orchestrator = TurbulanceOrchestrator::new();
    let result = orchestrator
        .execute_protocol(&protocol, &outcomes, SelectedStrategy::Sequential)
        .unwrap();
    assert_eq!(result.execution_statistics.steps_completed, 1);
    assert_eq!(result.execution_statistics.steps_failed, 1);
    assert_eq!(result.step_results[0].status, ExecutionStatus::Completed);
    assert_eq!(result.step_results[1].status, ExecutionStatus::Failed);
    assert_eq!(
        result.step_results[1].error_message,
        Some(String::from("stage exploded"))
    );
    // The third step is never attempted.
    assert_eq!(result.step_results[2].status, ExecutionStatus::Pending);
    assert_eq!(result.overall_status, ExecutionStatus::Failed);
}

#[test]
fn stage_names_map_to_canonical_stages() {
    let protocol = compile("a = pipeline_stage(\"query_processor\", {})", "p");
    assert_eq!(protocol.execution_steps[0].stage_name, "stage0_query_processor");
    assert_eq!(protocol.execution_steps[0].step_id, "p_a");
    // The base model of the canonical stage applies.
    assert_eq!(protocol.execution_steps[0].resource_requirements.cpu_cores, 1000);
    assert_eq!(
        protocol.execution_steps[0].resource_requirements.estimated_duration_seconds,
        5000
    );
    // Timeouts book three times the estimated duration.
    assert_eq!(protocol.execution_steps[0].timeout_seconds, 15000);
}

#[test]
fn expert_models_scale_resources() {
    let text = "a = pipeline_stage(\"domain_knowledge\", {\"expert_models\": [\"m1\", \"m2\", \"m3\"]})";
    let protocol = compile(text, "p");
    let req = &protocol.execution_steps[0].resource_requirements;
    // Base 4 cores scaled by 1 + (3 - 1) * 0.5 = 2.
    assert_eq!(req.cpu_cores, 8000);
    // Base 8 memory scaled by 1 + (3 - 1) * 0.3 = 1.6.
    assert_eq!(req.memory_gb, 12800);
    // Base 30 seconds scaled by 1 + (3 - 1) * 0.2 = 1.4.
    assert_eq!(req.estimated_duration_seconds, 42000);
}

#[test]
fn resource_priority_scales_cpu_and_memory() {
    let protocol = compile(
        "a = pipeline_stage(\"query_processor\", {\"resource_priority\": \"critical\"})",
        "p",
    );
    let req = &protocol.execution_steps[0].resource_requirements;
    assert_eq!(req.cpu_cores, 2000);
    assert_eq!(req.memory_gb, 4000);
}

#[test]
fn high_confidence_tightens_the_step() {
    let protocol = compile(
        "a = pipeline_stage(\"query_processor\", {\"minimum_confidence\": 0.95})",
        "p",
    );
    let req = &protocol.execution_steps[0].resource_requirements;
    assert_eq!(req.estimated_duration_seconds, 7500);
    assert_eq!(req.cpu_cores, 1200);
}

#[test]
fn auxiliary_files_carry_the_protocol() {
    let protocol = compile("a = pipeline_stage(\"query_processor\", {})", "myproto");
    assert!(protocol.auxiliary_files.fs_content.contains("\"protocol_name\":\"myproto\""));
    assert!(protocol.auxiliary_files.ghd_content.contains("\"execution_mode\":\"adaptive\""));
    assert!(protocol.auxiliary_files.hre_content.contains("\"complexity_assessment\":"));
    assert!(protocol.auxiliary_files.fs_content.contains("\"stages\":1"));
}

#[test]
fn parallelization_hint_names_the_family() {
    let text = "a = pipeline_stage(\"query_processor\", {})\nb = pipeline_stage(\"semantic_atdb\", {})";
    let protocol = compile(text, "p");
    let hint = protocol
        .optimization_hints
        .iter()
        .find(|h| h.hint_type == turbulance::OptimizationType::Parallelization)
        .unwrap();
    assert_eq!(hint.target_step, "p_a,p_b");
    assert_eq!(hint.description, "Steps p_a, p_b can be executed in parallel");
    assert_eq!(hint.priority, 800);
}

#[test]
fn optimized_mode_dispatches_on_the_selection() {
    let mut protocol = compile(
        "a = pipeline_stage(\"query_processor\", {})\nb = pipeline_stage(\"semantic_atdb\", {})",
        "p",
    );
    protocol.execution_mode = ExecutionMode::Optimized;
    let outcomes = vec![good_outcome(), bad_outcome("late failure")];
    let mut orchestrator = TurbulanceOrchestrator::new();
    // Under the sequential selection, the failure halts nothing further;
    // both steps sit in the order, so both are attempted.
    let result = orchestrator
        .execute_protocol(&protocol, &outcomes, SelectedStrategy::Sequential)
        .unwrap();
    assert_eq!(result.execution_statistics.steps_completed, 1);
    assert_eq!(result.execution_statistics.steps_failed, 1);
}

#[test]
fn unknown_plan_id_is_reported() {
    let mut protocol = compile("a = pipeline_stage(\"query_processor\", {})", "p");
    protocol.execution_order = vec![String::from("ghost_step")];
    protocol.execution_mode = ExecutionMode::Sequential;
    let outcomes = vec![good_outcome()];
    let mut orchestrator = TurbulanceOrchestrator::new();
    let err = orchestrator
        .execute_protocol(&protocol, &outcomes, SelectedStrategy::Sequential)
        .unwrap_err();
    assert_eq!(err.message(), "Step not found: ghost_step");
}

#[test]
fn compiler_statistics_count_protocols() {
    let script = parse("a = pipeline_stage(\"query_processor\", {})", "p");
    let mut compiler = TurbulanceCompiler::new();
    compiler.compile_protocol(&script).unwrap();
    compiler.compile_protocol(&script).unwrap();
    assert_eq!(compiler.protocols_compiled, 2);
    assert_eq!(compiler.total_steps_generated, 2);
}

#[test]
fn diamond_orders_dependencies_first() {
    let text = "a = pipeline_stage(\"query_processor\", {})\nb = pipeline_stage(\"semantic_atdb\", {\"input\": \"a\"})\nc = pipeline_stage(\"domain_knowledge\", {\"input\": \"a\"})\nd = pipeline_stage(\"solution_generation\", {\"left\": \"b\", \"right\": \"c\"})";
    let protocol = compile(text, "p");
    assert_eq!(
        protocol.execution_order,
        vec![
            String::from("p_a"),
            String::from("p_b"),
            String::from("p_c"),
            String::from("p_d"),
        ]
    );
    assert_eq!(protocol.parallel_groups, vec![vec![String::from("p_b"), String::from("p_c")]]);
}

#[test]
fn run_statistics_book_efficiency() {
    let text = "a = pipeline_stage(\"query_processor\", {})\nb = pipeline_stage(\"semantic_atdb\", {})";
    let protocol = compile(text, "run");
    let outcomes = vec![good_outcome(), good_outcome()];
    let mut orchestrator = TurbulanceOrchestrator::new();
    let result = orchestrator
        .execute_protocol(&protocol, &outcomes, SelectedStrategy::Adaptive)
        .unwrap();
    // Both steps sit in one group of two: 2 * 1000 / 2.
    assert_eq!(result.execution_statistics.parallelization_efficiency, 1000);
    // Estimated 5 + 15 seconds against 1 + 1 booked.
    assert_eq!(result.execution_statistics.resource_utilization_efficiency, 10000);
    assert_eq!(result.execution_statistics.average_step_quality, 800);
    assert_eq!(result.total_execution_time_seconds, 2000);
    assert!(result.execution_statistics.bottleneck_stages.is_empty());
}

#[test]
fn adaptive_rebooks_sequentially_when_over_budget() {
    // One group of two steps plus a third step outside every group: a
    // Parallel booking never reaches the third step.
    let protocol = CompiledProtocol {
        protocol_name: String::from("p"),
        execution_steps: vec![
            plain_step("p_a", "a"),
            plain_step("p_b", "b"),
            plain_step("p_c", "c"),
        ],
        execution_mode: ExecutionMode::Adaptive,
        total_resource_requirements: ResourceRequirements {
            cpu_cores: 2000,
            memory_gb: 4000,
            gpu_units: 0,
            network_bandwidth_mbps: 10000,
            estimated_duration_seconds: 15000,
            storage_gb: 300,
        },
        dependency_graph: Vec::new(),
        execution_order: vec![
            String::from("p_a"),
            String::from("p_b"),
            String::from("p_c"),
        ],
        parallel_groups: vec![vec![String::from("p_a"), String::from("p_b")]],
        auxiliary_files: turbulance::AuxiliaryFiles {
            fs_content: String::new(),
            ghd_content: String::new(),
            hre_content: String::new(),
        },
        optimization_hints: Vec::new(),
    };
    let slow = |_: ()| StepOutcome {
        elapsed_millis: 50000,
        ..good_outcome()
    };
    let quick_outcomes = vec![good_outcome(), good_outcome(), good_outcome()];
    let slow_outcomes = vec![slow(()), slow(()), slow(())];
    let mut orchestrator = TurbulanceOrchestrator::new();
    // Within budget, the Parallel booking stands and the third step stays
    // Pending.
    let within = orchestrator
        .execute_protocol(&protocol, &quick_outcomes, SelectedStrategy::Adaptive)
        .unwrap();
    assert_eq!(within.execution_statistics.steps_completed, 2);
    assert_eq!(within.step_results[2].status, ExecutionStatus::Pending);
    // Far over budget, the whole protocol is re-booked Sequentially.
    let over = orchestrator
        .execute_protocol(&protocol, &slow_outcomes, SelectedStrategy::Adaptive)
        .unwrap();
    assert_eq!(over.execution_statistics.steps_completed, 3);
    assert_eq!(over.overall_status, ExecutionStatus::Completed);
}

#[test]
fn strategy_entry_points_agree_with_the_run() {
    let text = "a = pipeline_stage(\"query_processor\", {})\nb = pipeline_stage(\"semantic_atdb\", {})";
    let protocol = compile(text, "p");
    let outcomes = vec![good_outcome(), bad_outcome("no")];
    let par = turbulance::execute::execute_parallel(&protocol, &outcomes).unwrap();
    // The failing step's group still completes in full.
    assert_eq!(par.len(), 2);
    assert_eq!(par[0].status, ExecutionStatus::Completed);
    assert_eq!(par[1].status, ExecutionStatus::Failed);
    let seq = turbulance::execute::execute_sequential(&protocol, &outcomes).unwrap();
    assert_eq!(seq[0].status, ExecutionStatus::Completed);
    assert_eq!(seq[1].status, ExecutionStatus::Failed);
}

#[test]
fn billed_usage_is_proportional_to_elapsed_time() {
    // A lone step compiles to Parallel mode without parallel groups; the
    // booking falls back to the execution order and still runs it.
    let protocol = compile("a = pipeline_stage(\"query_processor\", {})", "p");
    // The base step asks one core for five seconds; running ten seconds
    // books two cores.
    let outcome = StepOutcome {
        elapsed_millis: 10000,
        ..good_outcome()
    };
    let mut orchestrator = TurbulanceOrchestrator::new();
    let result = orchestrator
        .execute_protocol(&protocol, &vec![outcome], SelectedStrategy::Sequential)
        .unwrap();
    assert_eq!(result.step_results[0].resource_usage.cpu_cores_used, 2000);
    // Storage books what was requested.
    assert_eq!(result.step_results[0].resource_usage.storage_gb_used, 100);
}

#[test]
fn lone_parallel_step_still_runs() {
    let protocol = compile("a = pipeline_stage(\"query_processor\", {})", "p");
    assert_eq!(protocol.execution_mode, ExecutionMode::Parallel);
    assert!(protocol.parallel_groups.is_empty());
    let mut orchestrator = TurbulanceOrchestrator::new();
    let result = orchestrator
        .execute_protocol(&protocol, &vec![good_outcome()], SelectedStrategy::Adaptive)
        .unwrap();
    assert_eq!(result.execution_statistics.steps_completed, 1);
    assert_eq!(result.overall_status, ExecutionStatus::Completed);
}

#[test]
fn empty_script_compiles_to_an_empty_plan() {
    let protocol = compile("", "empty");
    assert!(protocol.execution_steps.is_empty());
    assert!(protocol.execution_order.is_empty());
    assert!(protocol.parallel_groups.is_empty());
    // With nothing to schedule, every step is trivially independent.
    assert_eq!(protocol.execution_mode, ExecutionMode::Parallel);
    assert_eq!(protocol.total_resource_requirements.cpu_cores, 0);
    let outcomes: Vec<StepOutcome> = Vec::new();
    let mut orchestrator = TurbulanceOrchestrator::new();
    let result = orchestrator
        .execute_protocol(&protocol, &outcomes, SelectedStrategy::Adaptive)
        .unwrap();
    assert_eq!(result.overall_status, ExecutionStatus::Completed);
    assert_eq!(result.execution_statistics.steps_completed, 0);
}
