//! Schema migrations: numbered, append-only steps, each applied once. The
//! versions already applied are read from `schema_migrations` by the
//! caller; this module says which steps are still to run, in order, and
//! how a failed step is reported. Each step's SQL is run by the caller in a
//! transaction of its own.
use vstd::prelude::*;
use crate::error::AppError;
use crate::text::{append_decimal, decimal, push_char};

verus! {

broadcast use vstd::string::group_string_axioms;

/// The schema's steps as (version, name), in the order they are applied.
pub open spec fn spec_migrations() -> Seq<(i64, Seq<char>)> {
    seq![
        (1i64, "init"@),
        (2i64, "phase1_core"@),
        (3i64, "phase3_worldbuilding"@),
        (4i64, "phase4_story"@),
        (5i64, "phase5_ai"@),
        (6i64, "phase7_analysis"@),
        (7i64, "phase8_safety"@),
    ]
}

pub fn migrations() -> (v: Vec<(i64, &'static str)>)
    ensures
        v@.map_values(|m: (i64, &'static str)| (m.0, m.1@)) == spec_migrations(),
{
    let mut v: Vec<(i64, &'static str)> = Vec::new();
    v.push((1, "init"));
    v.push((2, "phase1_core"));
    v.push((3, "phase3_worldbuilding"));
    v.push((4, "phase4_story"));
    v.push((5, "phase5_ai"));
    v.push((6, "phase7_analysis"));
    v.push((7, "phase8_safety"));
    assert(v@.map_values(|m: (i64, &'static str)| (m.0, m.1@)) =~= spec_migrations());
    v
}

/// The positions, in order, of the versions not applied yet.
pub open spec fn pending_positions(versions: Seq<i64>, applied: Seq<i64>) -> Seq<int>
    decreases versions.len(),
{
    if versions.len() == 0 {
        Seq::empty()
    } else {
        let rest = pending_positions(versions.drop_last(), applied);
        if applied.contains(versions.last()) {
            rest
        } else {
            rest.push(versions.len() - 1)
        }
    }
}

/// The versions not applied yet, in order.
pub open spec fn pending_versions(versions: Seq<i64>, applied: Seq<i64>) -> Seq<i64> {
    pending_positions(versions, applied).map_values(|i: int| versions[i])
}

fn contains_version(applied: &[i64], v: i64) -> (b: bool)
    ensures
        b == applied@.contains(v),
{
    let mut i: usize = 0;
    while i < applied.len()
        invariant
            0 <= i <= applied@.len(),
            forall|j: int| 0 <= j < i ==> applied@[j] != v,
        decreases applied.len() - i,
    {
        if applied[i] == v {
            return true;
        }
        i += 1;
    }
    false
}

/// The positions in `versions` of the steps still to run, in order.
pub fn pending_migrations(versions: &[i64], applied: &[i64]) -> (r: Vec<usize>)
    ensures
        r@.map_values(|i: usize| i as int) == pending_positions(versions@, applied@),
{
    let mut r: Vec<usize> = Vec::new();
    let mut i: usize = 0;
    while i < versions.len()
        invariant
            0 <= i <= versions@.len(),
            r@.map_values(|k: usize| k as int) == pending_positions(versions@.take(i as int), applied@),
        decreases versions.len() - i,
    {
        let ghost before = r@;
        assert(versions@.take(i + 1).drop_last() =~= versions@.take(i as int));
        assert(versions@.take(i + 1).last() == versions@[i as int]);
        if !contains_version(applied, versions[i]) {
            r.push(i);
            assert(r@.map_values(|k: usize| k as int) =~= before.map_values(|k: usize| k as int).push(i as int));
        }
        i += 1;
    }
    assert(versions@.take(versions@.len() as int) =~= versions@);
    r
}

proof fn lemma_pending_covers(versions: Seq<i64>, applied: Seq<i64>)
    ensures
        forall|i: int|
            0 <= i < versions.len() ==> applied.contains(#[trigger] versions[i]) || pending_versions(
                versions,
                applied,
            ).contains(versions[i]),
        forall|k: int|
            0 <= k < pending_positions(versions, applied).len() ==> 0 <= #[trigger] pending_positions(
                versions,
                applied,
            )[k] < versions.len(),
    decreases versions.len(),
{
    if versions.len() > 0 {
        let init = versions.drop_last();
        lemma_pending_covers(init, applied);
        let rest = pending_positions(init, applied);
        let p = pending_positions(versions, applied);
        assert forall|k: int| 0 <= k < rest.len() implies p[k] == rest[k] && versions[p[k]] == init[rest[k]] by {
            assert(0 <= rest[k] < init.len());
        }
        assert forall|i: int| 0 <= i < versions.len() implies applied.contains(#[trigger] versions[i])
            || pending_versions(versions, applied).contains(versions[i]) by {
            if i < versions.len() - 1 {
                assert(versions[i] == init[i]);
                if !applied.contains(versions[i]) {
                    assert(pending_versions(init, applied).contains(init[i]));
                    let k = choose|k: int| 0 <= k < pending_versions(init, applied).len()
                        && pending_versions(init, applied)[k] == init[i];
                    assert(pending_versions(versions, applied)[k] == versions[p[k]]);
                }
            } else if !applied.contains(versions[i]) {
                assert(pending_versions(versions, applied)[rest.len() as int] == versions[i]);
            }
        }
    }
}

/// Migrations are idempotent: once the pending steps have run and been
/// recorded, nothing is pending any more, so a second run applies nothing.
pub proof fn law_migrations_run_once(versions: Seq<i64>, applied: Seq<i64>)
    ensures
        pending_positions(versions, applied + pending_versions(versions, applied)).len() == 0,
    decreases versions.len(),
{
    let all = applied + pending_versions(versions, applied);
    lemma_pending_covers(versions, applied);
    assert forall|i: int| 0 <= i < versions.len() implies all.contains(#[trigger] versions[i]) by {
        if applied.contains(versions[i]) {
            let j = choose|j: int| 0 <= j < applied.len() && applied[j] == versions[i];
            assert(all[j] == versions[i]);
        } else {
            let pv = pending_versions(versions, applied);
            let j = choose|j: int| 0 <= j < pv.len() && pv[j] == versions[i];
            assert(all[applied.len() + j] == versions[i]);
        }
    }
    lemma_all_applied(versions, all);
}

proof fn lemma_all_applied(versions: Seq<i64>, applied: Seq<i64>)
    requires
        forall|i: int| 0 <= i < versions.len() ==> applied.contains(#[trigger] versions[i]),
    ensures
        pending_positions(versions, applied).len() == 0,
    decreases versions.len(),
{
    if versions.len() > 0 {
        let init = versions.drop_last();
        assert forall|i: int| 0 <= i < init.len() implies applied.contains(#[trigger] init[i]) by {
            assert(init[i] == versions[i]);
        }
        lemma_all_applied(init, applied);
        assert(applied.contains(versions[versions.len() - 1]));
    }
}

/// A version number in decimal, with a sign when negative.
pub open spec fn signed_decimal(v: int) -> Seq<char> {
    if v < 0 {
        seq!['-'] + decimal((-v) as nat)
    } else {
        decimal(v as nat)
    }
}

/// The error of a step that failed.
pub fn migration_failure(version: i64, name: &str, detail: &str) -> (e: AppError)
    ensures
        e matches AppError::Migration(m) && m@ == "migration "@ + signed_decimal(version as int) + " ("@ + name@
            + ") failed: "@ + detail@,
{
    let mut m = String::from_str("migration ");
    if version < 0 {
        push_char(&mut m, '-');
        let wide: i128 = version as i128;
        let magnitude: u64 = (0i128 - wide) as u64;
        append_decimal(&mut m, magnitude);
    } else {
        append_decimal(&mut m, version as u64);
    }
    m.append(" (");
    m.append(name);
    m.append(") failed: ");
    m.append(detail);
    AppError::Migration(m)
}

/// Exactly the steps not yet applied run, in the order of the list: each
/// position given is that of a version not applied, the positions
/// increase, and every version not applied is given.
pub proof fn law_pending_are_the_unapplied(versions: Seq<i64>, applied: Seq<i64>)
    ensures
        forall|k: int|
            0 <= k < pending_positions(versions, applied).len() ==> 0 <= #[trigger] pending_positions(
                versions,
                applied,
            )[k] < versions.len() && !applied.contains(versions[pending_positions(versions, applied)[k]]),
        forall|k1: int, k2: int|
            0 <= k1 < k2 < pending_positions(versions, applied).len() ==> #[trigger] pending_positions(
                versions,
                applied,
            )[k1] < #[trigger] pending_positions(versions, applied)[k2],
        forall|i: int|
            0 <= i < versions.len() && !applied.contains(#[trigger] versions[i]) ==> pending_positions(
                versions,
                applied,
            ).contains(i),
    decreases versions.len(),
{
    if versions.len() > 0 {
        let init = versions.drop_last();
        law_pending_are_the_unapplied(init, applied);
        let rest = pending_positions(init, applied);
        let p = pending_positions(versions, applied);
        assert forall|k: int| 0 <= k < rest.len() implies p[k] == rest[k] && versions[rest[k]] == init[rest[k]] by {}
        assert forall|i: int| 0 <= i < versions.len() && !applied.contains(#[trigger] versions[i]) implies p.contains(
            i,
        ) by {
            if i < versions.len() - 1 {
                assert(versions[i] == init[i]);
                let k = choose|k: int| 0 <= k < rest.len() && rest[k] == i;
                assert(p[k] == i);
            } else {
                assert(p[rest.len() as int] == i);
            }
        }
    }
}

} // verus!
