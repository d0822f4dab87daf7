//! The static stage tables and configuration-driven resource adjustment.
//!
//! A script names stages by short identifiers; the compiler maps each
//! through a fixed table to a canonical pipeline stage name (an unmapped
//! identifier passes through verbatim) and starts from that stage's base
//! resource model. The step's configuration may then override resource
//! fields directly (a negative override is rejected), scale by the number
//! of expert models, scale by a resource priority, and tighten for a high
//! confidence floor.

use vstd::prelude::*;

use vstd::string::StringExecFns;

use crate::compiler::ResourceRequirements;
use crate::fixed::{mul_milli, spec_mul_milli, RES_MAX};
use crate::value::{obj_get, obj_model, object_get, TurbulanceValue, Val};

verus! {

/// The canonical stage name of a script stage identifier.
pub open spec fn spec_stage_mapping(s: Seq<char>) -> Seq<char> {
    if s == "query_processor"@ {
        "stage0_query_processor"@
    } else if s == "semantic_atdb"@ {
        "stage1_semantic_atdb"@
    } else if s == "domain_knowledge"@ {
        "stage2_domain_knowledge"@
    } else if s == "reasoning_optimization"@ {
        "stage3_reasoning_optimization"@
    } else if s == "solution_generation"@ {
        "stage4_solution"@
    } else if s == "response_scoring"@ {
        "stage5_scoring"@
    } else if s == "response_comparison"@ {
        "stage6_comparison"@
    } else if s == "threshold_verification"@ {
        "stage7_verification"@
    } else {
        s
    }
}

/// Maps a stage identifier to its canonical stage name.
pub fn map_stage(s: &String) -> (r: String)
    ensures
        r@ == spec_stage_mapping(s@),
{
    if *s == <String as StringExecFns>::from_str("query_processor") {
        <String as StringExecFns>::from_str("stage0_query_processor")
    } else if *s == <String as StringExecFns>::from_str("semantic_atdb") {
        <String as StringExecFns>::from_str("stage1_semantic_atdb")
    } else if *s == <String as StringExecFns>::from_str("domain_knowledge") {
        <String as StringExecFns>::from_str("stage2_domain_knowledge")
    } else if *s == <String as StringExecFns>::from_str("reasoning_optimization") {
        <String as StringExecFns>::from_str("stage3_reasoning_optimization")
    } else if *s == <String as StringExecFns>::from_str("solution_generation") {
        <String as StringExecFns>::from_str("stage4_solution")
    } else if *s == <String as StringExecFns>::from_str("response_scoring") {
        <String as StringExecFns>::from_str("stage5_scoring")
    } else if *s == <String as StringExecFns>::from_str("response_comparison") {
        <String as StringExecFns>::from_str("stage6_comparison")
    } else if *s == <String as StringExecFns>::from_str("threshold_verification") {
        <String as StringExecFns>::from_str("stage7_verification")
    } else {
        s.clone()
    }
}

/// The base resource model of a canonical stage name; unknown stages get
/// the default model.
pub open spec fn spec_resource_model(stage: Seq<char>) -> ResourceRequirements {
    if stage == "stage0_query_processor"@ {
        ResourceRequirements {
            cpu_cores: 1000,
            memory_gb: 2000,
            gpu_units: 0,
            network_bandwidth_mbps: 10000,
            estimated_duration_seconds: 5000,
            storage_gb: 100,
        }
    } else if stage == "stage1_semantic_atdb"@ {
        ResourceRequirements {
            cpu_cores: 2000,
            memory_gb: 4000,
            gpu_units: 0,
            network_bandwidth_mbps: 20000,
            estimated_duration_seconds: 15000,
            storage_gb: 200,
        }
    } else if stage == "stage2_domain_knowledge"@ {
        ResourceRequirements {
            cpu_cores: 4000,
            memory_gb: 8000,
            gpu_units: 1000,
            network_bandwidth_mbps: 50000,
            estimated_duration_seconds: 30000,
            storage_gb: 500,
        }
    } else if stage == "stage3_reasoning_optimization"@ {
        ResourceRequirements {
            cpu_cores: 3000,
            memory_gb: 6000,
            gpu_units: 500,
            network_bandwidth_mbps: 30000,
            estimated_duration_seconds: 25000,
            storage_gb: 300,
        }
    } else if stage == "stage4_solution"@ {
        ResourceRequirements {
            cpu_cores: 2000,
            memory_gb: 4000,
            gpu_units: 0,
            network_bandwidth_mbps: 25000,
            estimated_duration_seconds: 20000,
            storage_gb: 200,
        }
    } else if stage == "stage5_scoring"@ {
        ResourceRequirements {
            cpu_cores: 1000,
            memory_gb: 2000,
            gpu_units: 0,
            network_bandwidth_mbps: 15000,
            estimated_duration_seconds: 10000,
            storage_gb: 100,
        }
    } else if stage == "stage6_comparison"@ {
        ResourceRequirements {
            cpu_cores: 2000,
            memory_gb: 4000,
            gpu_units: 0,
            network_bandwidth_mbps: 20000,
            estimated_duration_seconds: 15000,
            storage_gb: 200,
        }
    } else if stage == "stage7_verification"@ {
        ResourceRequirements {
            cpu_cores: 1000,
            memory_gb: 2000,
            gpu_units: 0,
            network_bandwidth_mbps: 10000,
            estimated_duration_seconds: 8000,
            storage_gb: 100,
        }
    } else {
        spec_default_resources()
    }
}

/// The default resource model.
pub open spec fn spec_default_resources() -> ResourceRequirements {
    ResourceRequirements {
        cpu_cores: 1000,
        memory_gb: 2000,
        gpu_units: 0,
        network_bandwidth_mbps: 10000,
        estimated_duration_seconds: 15000,
        storage_gb: 100,
    }
}

/// The base model of every stage is within the resource cap.
pub proof fn lemma_resource_model_wf(stage: Seq<char>)
    ensures
        spec_resource_model(stage).wf(),
{
}

/// Looks a canonical stage name up in the base resource table.
pub fn resource_model(stage: &String) -> (r: ResourceRequirements)
    ensures
        r == spec_resource_model(stage@),
        r.wf(),
{
    let r = if *stage == <String as StringExecFns>::from_str("stage0_query_processor") {
        ResourceRequirements {
            cpu_cores: 1000,
            memory_gb: 2000,
            gpu_units: 0,
            network_bandwidth_mbps: 10000,
            estimated_duration_seconds: 5000,
            storage_gb: 100,
        }
    } else if *stage == <String as StringExecFns>::from_str("stage1_semantic_atdb") {
        ResourceRequirements {
            cpu_cores: 2000,
            memory_gb: 4000,
            gpu_units: 0,
            network_bandwidth_mbps: 20000,
            estimated_duration_seconds: 15000,
            storage_gb: 200,
        }
    } else if *stage == <String as StringExecFns>::from_str("stage2_domain_knowledge") {
        ResourceRequirements {
            cpu_cores: 4000,
            memory_gb: 8000,
            gpu_units: 1000,
            network_bandwidth_mbps: 50000,
            estimated_duration_seconds: 30000,
            storage_gb: 500,
        }
    } else if *stage == <String as StringExecFns>::from_str("stage3_reasoning_optimization") {
        ResourceRequirements {
            cpu_cores: 3000,
            memory_gb: 6000,
            gpu_units: 500,
            network_bandwidth_mbps: 30000,
            estimated_duration_seconds: 25000,
            storage_gb: 300,
        }
    } else if *stage == <String as StringExecFns>::from_str("stage4_solution") {
        ResourceRequirements {
            cpu_cores: 2000,
            memory_gb: 4000,
            gpu_units: 0,
            network_bandwidth_mbps: 25000,
            estimated_duration_seconds: 20000,
            storage_gb: 200,
        }
    } else if *stage == <String as StringExecFns>::from_str("stage5_scoring") {
        ResourceRequirements {
            cpu_cores: 1000,
            memory_gb: 2000,
            gpu_units: 0,
            network_bandwidth_mbps: 15000,
            estimated_duration_seconds: 10000,
            storage_gb: 100,
        }
    } else if *stage == <String as StringExecFns>::from_str("stage6_comparison") {
        ResourceRequirements {
            cpu_cores: 2000,
            memory_gb: 4000,
            gpu_units: 0,
            network_bandwidth_mbps: 20000,
            estimated_duration_seconds: 15000,
            storage_gb: 200,
        }
    } else if *stage == <String as StringExecFns>::from_str("stage7_verification") {
        ResourceRequirements {
            cpu_cores: 1000,
            memory_gb: 2000,
            gpu_units: 0,
            network_bandwidth_mbps: 10000,
            estimated_duration_seconds: 8000,
            storage_gb: 100,
        }
    } else {
        ResourceRequirements {
            cpu_cores: 1000,
            memory_gb: 2000,
            gpu_units: 0,
            network_bandwidth_mbps: 10000,
            estimated_duration_seconds: 15000,
            storage_gb: 100,
        }
    };
    r
}

/// Whether the configuration holds a negative number under a resource key:
/// such an override is rejected.
pub open spec fn spec_neg_override(cfg: Seq<(Seq<char>, Val)>) -> bool {
    spec_neg_at(cfg, "cpu_cores"@) || spec_neg_at(cfg, "memory_gb"@) || spec_neg_at(
        cfg,
        "gpu_units"@,
    ) || spec_neg_at(cfg, "network_bandwidth_mbps"@) || spec_neg_at(
        cfg,
        "estimated_duration_seconds"@,
    ) || spec_neg_at(cfg, "storage_gb"@)
}

/// Whether the configuration holds a negative number under `key`.
pub open spec fn spec_neg_at(cfg: Seq<(Seq<char>, Val)>, key: Seq<char>) -> bool {
    match obj_get(cfg, key) {
        Some(Val::Num(n)) => n < 0,
        _ => false,
    }
}

/// The value of one resource field after a (non-negative) direct override,
/// capped at the resource limit.
pub open spec fn spec_override(cfg: Seq<(Seq<char>, Val)>, key: Seq<char>, cur: u64) -> u64 {
    match obj_get(cfg, key) {
        Some(Val::Num(n)) => if n < 0 {
            cur
        } else if n > RES_MAX {
            RES_MAX
        } else {
            n as u64
        },
        _ => cur,
    }
}

/// The scaling factor for `c` expert models, in milli: one plus
/// `(c - 1)` times `per` thousandths, capped at the resource limit.
pub open spec fn spec_scale(c: nat, per: u64) -> u64 {
    if c == 0 {
        (1000 - per) as u64
    } else if 1000 + (c - 1) * per > RES_MAX {
        RES_MAX
    } else {
        (1000 + (c - 1) * per) as u64
    }
}

/// The adjusted requirements: direct overrides, then expert-model scaling,
/// then priority scaling, then the confidence tightening. Defined only when
/// no negative override is present.
pub open spec fn spec_adjust(
    req: ResourceRequirements,
    cfg: Seq<(Seq<char>, Val)>,
) -> ResourceRequirements {
    let r0 = ResourceRequirements {
        cpu_cores: spec_override(cfg, "cpu_cores"@, req.cpu_cores),
        memory_gb: spec_override(cfg, "memory_gb"@, req.memory_gb),
        gpu_units: spec_override(cfg, "gpu_units"@, req.gpu_units),
        network_bandwidth_mbps: spec_override(
            cfg,
            "network_bandwidth_mbps"@,
            req.network_bandwidth_mbps,
        ),
        estimated_duration_seconds: spec_override(
            cfg,
            "estimated_duration_seconds"@,
            req.estimated_duration_seconds,
        ),
        storage_gb: spec_override(cfg, "storage_gb"@, req.storage_gb),
    };
    let r1 = match obj_get(cfg, "expert_models"@) {
        Some(Val::Array(items)) => ResourceRequirements {
            cpu_cores: spec_mul_milli(r0.cpu_cores, spec_scale(items.len(), 500)),
            memory_gb: spec_mul_milli(r0.memory_gb, spec_scale(items.len(), 300)),
            estimated_duration_seconds: spec_mul_milli(
                r0.estimated_duration_seconds,
                spec_scale(items.len(), 200),
            ),
            ..r0
        },
        _ => r0,
    };
    let r2 = match obj_get(cfg, "resource_priority"@) {
        Some(Val::Str(p)) => {
            let m: u64 = if p == "high"@ {
                1500
            } else if p == "critical"@ {
                2000
            } else if p == "low"@ {
                700
            } else {
                1000
            };
            ResourceRequirements {
                cpu_cores: spec_mul_milli(r1.cpu_cores, m),
                memory_gb: spec_mul_milli(r1.memory_gb, m),
                ..r1
            }
        },
        _ => r1,
    };
    match obj_get(cfg, "minimum_confidence"@) {
        Some(Val::Num(q)) => if q > 900 {
            ResourceRequirements {
                estimated_duration_seconds: spec_mul_milli(r2.estimated_duration_seconds, 1500),
                cpu_cores: spec_mul_milli(r2.cpu_cores, 1200),
                ..r2
            }
        } else {
            r2
        },
        _ => r2,
    }
}

/// Adjustment keeps requirements within the resource cap.
pub proof fn lemma_adjust_wf(req: ResourceRequirements, cfg: Seq<(Seq<char>, Val)>)
    requires
        req.wf(),
    ensures
        spec_adjust(req, cfg).wf(),
{
}

/// Overrides one resource field from the configuration.
fn override_field(
    cfg: &Vec<(String, TurbulanceValue)>,
    key: &str,
    cur: u64,
) -> (r: Result<u64, ()>)
    ensures
        match r {
            Ok(v) => !spec_neg_at(obj_model(cfg@), key@) && v == spec_override(
                obj_model(cfg@),
                key@,
                cur,
            ),
            Err(()) => spec_neg_at(obj_model(cfg@), key@),
        },
{
    let k = <String as StringExecFns>::from_str(key);
    match object_get(cfg, &k) {
        Some(TurbulanceValue::Num(n)) => {
            if *n < 0 {
                Err(())
            } else if *n as u64 > RES_MAX {
                Ok(RES_MAX)
            } else {
                Ok(*n as u64)
            }
        },
        _ => Ok(cur),
    }
}

/// The expert-model scaling factor for `c` models.
fn scale_factor(c: usize, per: u64) -> (r: u64)
    requires
        per <= 1000,
    ensures
        r == spec_scale(c as nat, per),
{
    if c == 0 {
        1000 - per
    } else {
        proof {
            assert((c as int - 1) * (per as int) <= (u64::MAX as int) * 1000)
                by (nonlinear_arith)
                requires
                    1 <= c <= u64::MAX,
                    0 <= per <= 1000,
            ;
        }
        let wide: u128 = 1000 + (c as u128 - 1) * (per as u128);
        if wide > RES_MAX as u128 {
            RES_MAX
        } else {
            wide as u64
        }
    }
}

/// Adjusts base requirements by the step's configuration. Returns the
/// validation failure when the configuration holds a negative resource
/// override, and the adjusted requirements otherwise.
pub fn adjust_resource_requirements(
    req: ResourceRequirements,
    cfg: &Vec<(String, TurbulanceValue)>,
) -> (r: Result<ResourceRequirements, ()>)
    ensures
        match r {
            Ok(a) => !spec_neg_override(obj_model(cfg@)) && a == spec_adjust(
                req,
                obj_model(cfg@),
            ),
            Err(()) => spec_neg_override(obj_model(cfg@)),
        },
{
    let cpu = match override_field(cfg, "cpu_cores", req.cpu_cores) {
        Ok(v) => v,
        Err(()) => {
            return Err(());
        },
    };
    let mem = match override_field(cfg, "memory_gb", req.memory_gb) {
        Ok(v) => v,
        Err(()) => {
            return Err(());
        },
    };
    let gpu = match override_field(cfg, "gpu_units", req.gpu_units) {
        Ok(v) => v,
        Err(()) => {
            return Err(());
        },
    };
    let net = match override_field(cfg, "network_bandwidth_mbps", req.network_bandwidth_mbps) {
        Ok(v) => v,
        Err(()) => {
            return Err(());
        },
    };
    let dur = match override_field(
        cfg,
        "estimated_duration_seconds",
        req.estimated_duration_seconds,
    ) {
        Ok(v) => v,
        Err(()) => {
            return Err(());
        },
    };
    let sto = match override_field(cfg, "storage_gb", req.storage_gb) {
        Ok(v) => v,
        Err(()) => {
            return Err(());
        },
    };
    let mut out = ResourceRequirements {
        cpu_cores: cpu,
        memory_gb: mem,
        gpu_units: gpu,
        network_bandwidth_mbps: net,
        estimated_duration_seconds: dur,
        storage_gb: sto,
    };
    let kexp = <String as StringExecFns>::from_str("expert_models");
    match object_get(cfg, &kexp) {
        Some(TurbulanceValue::Array(items)) => {
            proof {
                crate::value::lemma_arr_model(items@);
            }
            let c = items.len();
            out.cpu_cores = mul_milli(out.cpu_cores, scale_factor(c, 500));
            out.memory_gb = mul_milli(out.memory_gb, scale_factor(c, 300));
            out.estimated_duration_seconds = mul_milli(
                out.estimated_duration_seconds,
                scale_factor(c, 200),
            );
        },
        _ => {},
    }
    let kpri = <String as StringExecFns>::from_str("resource_priority");
    match object_get(cfg, &kpri) {
        Some(TurbulanceValue::Str(p)) => {
            let m: u64 = if *p == <String as StringExecFns>::from_str("high") {
                1500
            } else if *p == <String as StringExecFns>::from_str("critical") {
                2000
            } else if *p == <String as StringExecFns>::from_str("low") {
                700
            } else {
                1000
            };
            out.cpu_cores = mul_milli(out.cpu_cores, m);
            out.memory_gb = mul_milli(out.memory_gb, m);
        },
        _ => {},
    }
    let kcon = <String as StringExecFns>::from_str("minimum_confidence");
    match object_get(cfg, &kcon) {
        Some(TurbulanceValue::Num(q)) => {
            if *q > 900 {
                out.estimated_duration_seconds = mul_milli(
                    out.estimated_duration_seconds,
                    1500,
                );
                out.cpu_cores = mul_milli(out.cpu_cores, 1200);
            }
        },
        _ => {},
    }
    Ok(out)
}

} // verus!
