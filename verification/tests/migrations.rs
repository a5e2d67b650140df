use novel_studio_ai::error::AppError;
use novel_studio_ai::migrations::{migration_failure, migrations, pending_migrations};

#[test]
fn steps_are_numbered_in_order() {
    let m = migrations();
    let versions: Vec<i64> = m.iter().map(|(v, _)| *v).collect();
    assert_eq!(versions, vec![1, 2, 3, 4, 5, 6, 7]);
    assert_eq!(m[0].1, "init");
    assert_eq!(m[6].1, "phase8_safety");
}

#[test]
fn only_new_steps_are_pending() {
    let versions = [1, 2, 3, 4, 5, 6, 7];
    assert_eq!(pending_migrations(&versions, &[]), vec![0, 1, 2, 3, 4, 5, 6]);
    assert_eq!(pending_migrations(&versions, &[1, 2, 3, 4, 5]), vec![5, 6]);
    assert_eq!(pending_migrations(&versions, &[2, 9]), vec![0, 2, 3, 4, 5, 6]);
}

#[test]
fn applying_the_pending_steps_leaves_nothing_pending() {
    let versions = [1, 2, 3, 4, 5, 6, 7];
    let mut applied = vec![1, 4];
    for i in pending_migrations(&versions, &applied) {
        applied.push(versions[i]);
    }
    assert!(pending_migrations(&versions, &applied).is_empty());
}

#[test]
fn a_failed_step_names_itself() {
    let e = migration_failure(3, "phase3_worldbuilding", "syntax error");
    assert!(matches!(&e, AppError::Migration(_)));
    assert_eq!(e.message(), "マイグレーションエラー: migration 3 (phase3_worldbuilding) failed: syntax error");
    assert_eq!(migration_failure(-2, "x", "y").message(), "マイグレーションエラー: migration -2 (x) failed: y");
}
