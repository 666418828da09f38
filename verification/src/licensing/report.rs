//! Assembly of the repository-level [`LicenseReport`].
use vstd::prelude::*;

use super::copyleft::{classify_license, classify_spec, copyleft_risk_score, risk_of};
use super::detect::LicenseDetection;
use super::LicensingError;
use crate::ingestion::deps::DependencyRecord;
use crate::text::{chars_of, string_of};

verus! {

/// Repository-level license posture and copyleft risk. Risk values are the
/// whole-number scores of the copyleft risk matrix (0..=10).
#[derive(Debug, Clone)]
pub struct LicenseReport {
    pub repo_id: String,
    pub detections: Vec<LicenseDetection>,
    /// `(dependency_name, spdx_expression)` pairs.
    pub dependency_licenses: Vec<(String, String)>,
    pub copyleft_exposure: u32,
    pub missing_licenses: bool,
    pub conflicts: Vec<String>,
    pub overall_risk_score: u32,
}

/// The larger of two scores.
pub open spec fn max_u32(a: u32, b: u32) -> u32 {
    if a >= b {
        a
    } else {
        b
    }
}

/// The risk of a license expression: that of its copyleft tier.
pub open spec fn license_risk(expr: Seq<char>) -> u32 {
    risk_of(classify_spec(expr))
}

/// The highest risk among the detected licenses (0 when there are none).
pub open spec fn detections_risk(ds: Seq<LicenseDetection>) -> u32
    decreases ds.len(),
{
    if ds.len() == 0 {
        0
    } else {
        max_u32(detections_risk(ds.drop_last()), license_risk(ds.last().spdx_expression@))
    }
}

/// The `(name, license)` pairs of the dependencies that declare a license,
/// in order.
pub open spec fn dependency_pairs(deps: Seq<DependencyRecord>) -> Seq<(Seq<char>, Seq<char>)>
    decreases deps.len(),
{
    if deps.len() == 0 {
        Seq::empty()
    } else {
        let before = dependency_pairs(deps.drop_last());
        match deps.last().spdx_license {
            Some(l) => before.push((deps.last().name@, l@)),
            None => before,
        }
    }
}

/// The highest risk among the dependencies that declare a license.
pub open spec fn dependencies_risk(deps: Seq<DependencyRecord>) -> u32
    decreases deps.len(),
{
    if deps.len() == 0 {
        0
    } else {
        let before = dependencies_risk(deps.drop_last());
        match deps.last().spdx_license {
            Some(l) => max_u32(before, license_risk(l@)),
            None => before,
        }
    }
}

/// Build a [`LicenseReport`] from license detections and dependency records.
///
/// `overall_risk_score` is the maximum copyleft risk across both the
/// repository's own detected licenses and its dependencies, so a repository
/// licensed under strong copyleft scores high even with no risky dependency.
pub fn build_report(
    repo_id: &str,
    detections: Vec<LicenseDetection>,
    deps: &[DependencyRecord],
) -> (r: Result<LicenseReport, LicensingError>)
    ensures
        r matches Ok(rep) && {
            &&& rep.repo_id@ == repo_id@
            &&& rep.detections@ == detections@
            &&& rep.dependency_licenses@.len() == dependency_pairs(deps@).len()
            &&& forall|i: int|
                0 <= i < rep.dependency_licenses@.len() ==> (#[trigger] rep.dependency_licenses@[i]).0@
                    == dependency_pairs(deps@)[i].0 && rep.dependency_licenses@[i].1@
                    == dependency_pairs(deps@)[i].1
            &&& rep.copyleft_exposure == detections_risk(detections@)
            &&& rep.overall_risk_score == max_u32(
                detections_risk(detections@),
                dependencies_risk(deps@),
            )
            &&& rep.missing_licenses == (detections@.len() == 0 && dependency_pairs(deps@).len()
                == 0)
            &&& rep.conflicts@.len() == 0
        },
{
    let mut copyleft_exposure: u32 = 0;
    let mut i: usize = 0;
    while i < detections.len()
        invariant
            i <= detections@.len(),
            copyleft_exposure == detections_risk(detections@.subrange(0, i as int)),
        decreases detections.len() - i,
    {
        let score = copyleft_risk_score(classify_license(detections[i].spdx_expression.as_str()));
        proof {
            assert(detections@.subrange(0, i + 1).drop_last() =~= detections@.subrange(0, i as int));
        }
        if score > copyleft_exposure {
            copyleft_exposure = score;
        }
        i = i + 1;
    }
    assert(detections@.subrange(0, detections@.len() as int) =~= detections@);
    let mut dependency_licenses: Vec<(String, String)> = Vec::new();
    let mut dep_risk: u32 = 0;
    let mut j: usize = 0;
    while j < deps.len()
        invariant
            j <= deps@.len(),
            dep_risk == dependencies_risk(deps@.subrange(0, j as int)),
            dependency_licenses@.len() == dependency_pairs(deps@.subrange(0, j as int)).len(),
            forall|k: int|
                0 <= k < dependency_licenses@.len() ==> (#[trigger] dependency_licenses@[k]).0@
                    == dependency_pairs(deps@.subrange(0, j as int))[k].0
                    && dependency_licenses@[k].1@ == dependency_pairs(
                    deps@.subrange(0, j as int),
                )[k].1,
        decreases deps.len() - j,
    {
        proof {
            assert(deps@.subrange(0, j + 1).drop_last() =~= deps@.subrange(0, j as int));
        }
        match &deps[j].spdx_license {
            Some(license) => {
                dependency_licenses.push((deps[j].name.clone(), license.clone()));
                let score = copyleft_risk_score(classify_license(license.as_str()));
                if score > dep_risk {
                    dep_risk = score;
                }
            },
            None => {},
        }
        j = j + 1;
    }
    assert(deps@.subrange(0, deps@.len() as int) =~= deps@);
    let overall_risk = if copyleft_exposure >= dep_risk {
        copyleft_exposure
    } else {
        dep_risk
    };
    let missing_licenses = detections.len() == 0 && dependency_licenses.len() == 0;
    let rid = chars_of(repo_id);
    Ok(
        LicenseReport {
            repo_id: string_of(&rid),
            detections,
            dependency_licenses,
            copyleft_exposure,
            missing_licenses,
            conflicts: Vec::new(),
            overall_risk_score: overall_risk,
        },
    )
}

/// The overall risk of a report is at least the risk of every license it was
/// built from: each detected license and each declared dependency license.
pub proof fn lemma_overall_risk_dominates(
    ds: Seq<LicenseDetection>,
    deps: Seq<DependencyRecord>,
    i: int,
)
    ensures
        0 <= i < ds.len() ==> license_risk(ds[i].spdx_expression@) <= max_u32(
            detections_risk(ds),
            dependencies_risk(deps),
        ),
        0 <= i < deps.len() && deps[i].spdx_license is Some ==> license_risk(
            deps[i].spdx_license->0@,
        ) <= max_u32(detections_risk(ds), dependencies_risk(deps)),
    decreases ds.len() + deps.len(),
{
    if 0 <= i < ds.len() {
        lemma_detection_risk_bound(ds, i);
    }
    if 0 <= i < deps.len() && deps[i].spdx_license is Some {
        lemma_dependency_risk_bound(deps, i);
    }
}

proof fn lemma_detection_risk_bound(ds: Seq<LicenseDetection>, i: int)
    requires
        0 <= i < ds.len(),
    ensures
        license_risk(ds[i].spdx_expression@) <= detections_risk(ds),
    decreases ds.len(),
{
    if i < ds.len() - 1 {
        lemma_detection_risk_bound(ds.drop_last(), i);
    }
}

proof fn lemma_dependency_risk_bound(deps: Seq<DependencyRecord>, i: int)
    requires
        0 <= i < deps.len(),
        deps[i].spdx_license is Some,
    ensures
        license_risk(deps[i].spdx_license->0@) <= dependencies_risk(deps),
    decreases deps.len(),
{
    if i < deps.len() - 1 {
        lemma_dependency_risk_bound(deps.drop_last(), i);
    }
}

} // verus!
