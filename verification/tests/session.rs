use novel_studio_ai::documents::records_revisions;
use novel_studio_ai::session::{was_unclean, UncleanShutdownFlag, SESSION_OPEN_MARKER_KEY};

#[test]
fn a_marker_left_open_means_an_unclean_shutdown() {
    assert_eq!(SESSION_OPEN_MARKER_KEY, "app.session_open");
    assert!(was_unclean(Some("1")));
    assert!(!was_unclean(Some("0")));
    assert!(!was_unclean(None));
    assert!(UncleanShutdownFlag::from_marker(Some("1")).was_unclean_shutdown());
    assert!(!UncleanShutdownFlag(false).was_unclean_shutdown());
}

#[test]
fn only_manuscript_documents_keep_revisions() {
    assert!(records_revisions("chapter"));
    assert!(records_revisions("scene"));
    assert!(!records_revisions("note"));
}
