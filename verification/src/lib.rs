//! Turbulance: a verified parser, compiler and orchestration core for the
//! Turbulance research-protocol language.
//!
//! A protocol script is parsed line by line into a typed syntax tree, compiled
//! into a dependency-ordered execution plan with resource estimates, and the
//! plan's execution semantics (step ordering, halting on failure, resource
//! billing and telemetry aggregation) are computed by pure, verified functions.
//! The host application supplies the outside world: stage executors, a clock,
//! and a quality evaluator.
//!
//! Fractional quantities (resource amounts, quality scores, durations) are
//! represented as unsigned integers in thousandths ("milli" units), so `2.5`
//! CPU cores is stored as `2500`.

use vstd::prelude::*;

pub mod ast;
pub mod auxfiles;
pub mod compile;
pub mod compiler;
pub mod execute;
pub mod fixed;
pub mod hints;
pub mod json;
pub mod lines;
pub mod number;
pub mod orchestrator;
pub mod parser;
pub mod plan;
pub mod run;
pub mod scan;
pub mod script;
pub mod stages;
pub mod split;
pub mod text;
pub mod totals;
pub mod utils;
pub mod value;
pub mod values;

pub use ast::NodeType;
pub use ast::TurbulanceNode;
pub use ast::TurbulanceScript;
pub use compile::TurbulanceCompiler;
pub use compiler::AuxiliaryFiles;
pub use compiler::CompiledProtocol;
pub use compiler::ExecutionMode;
pub use compiler::ExecutionStep;
pub use compiler::OptimizationHint;
pub use compiler::OptimizationType;
pub use compiler::ResourceRequirements;
pub use execute::SelectedStrategy;
pub use orchestrator::ExecutionStatus;
pub use orchestrator::QualityMetrics;
pub use orchestrator::ResourceUsage;
pub use orchestrator::StepOutcome;
pub use orchestrator::StepResult;
pub use run::ExecutionResult;
pub use run::ExecutionStatistics;
pub use run::ResourcePool;
pub use run::TurbulanceOrchestrator;
pub use script::TurbulanceParser;
pub use utils::simple_hash;
pub use utils::PerformanceMonitor;
pub use utils::Timer;
pub use value::TurbulanceValue;

verus! {

/// The library's error type. Every fallible verified function says in its
/// contract exactly when each variant is returned.
#[derive(Debug, PartialEq, Eq)]
pub enum FourSidedTriangleError {
    ValidationError { message: String },
    ComputationalError { message: String },
}

impl FourSidedTriangleError {
    /// The human-readable message carried by the error.
    pub fn message(&self) -> (r: String)
        ensures
            r@ == self.spec_message(),
    {
        match self {
            FourSidedTriangleError::ValidationError { message } => message.clone(),
            FourSidedTriangleError::ComputationalError { message } => message.clone(),
        }
    }

    pub open spec fn spec_message(&self) -> Seq<char> {
        match self {
            FourSidedTriangleError::ValidationError { message } => message@,
            FourSidedTriangleError::ComputationalError { message } => message@,
        }
    }
}

} // verus!
