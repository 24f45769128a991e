use pytpch::error::DbgenError;
use pytpch::materialize::TableInput;
use pytpch::session::{Action, Event, Phase, Request, Session, DEFAULT_SCALE};
use pytpch::table::Table;

fn request(step: Option<usize>, n_steps: Option<usize>, table: Option<Table>) -> Request {
    Request { scale: 1, step, n_steps, table }
}

#[test]
fn invalid_partition_finishes_before_any_work() {
    let (session, action) = Session::start(request(Some(11), Some(10), None));
    assert!(matches!(action, Action::Finish));
    assert_eq!(session.phase, Phase::Done);
    assert!(matches!(
        session.finish(),
        Err(DbgenError::InvalidPartition { step: 11, n_steps: 10 })
    ));
}

#[test]
fn generate_forwards_selectors_unchanged() {
    let (mut session, action) = Session::start(request(Some(5), Some(10), Some(Table::Orders)));
    assert!(matches!(action, Action::OpenWorkspace));
    let action = session.on_event(Event::Opened(true));
    assert!(matches!(
        action,
        Action::Generate { scale: 1, step: Some(5), n_steps: Some(10), table: Some(4) }
    ));
    let (mut session, _) = Session::start(request(None, None, None));
    let action = session.on_event(Event::Opened(true));
    assert!(matches!(action, Action::Generate { scale: 1, step: None, n_steps: None, table: None }));
}

#[test]
fn successful_run_returns_tables() {
    let (mut session, _) = Session::start(request(None, None, None));
    session.on_event(Event::Opened(true));
    assert!(matches!(session.on_event(Event::Generated(Ok(0))), Action::ListFiles));
    let names = vec!["dists.dss".to_string(), "nation.tbl".to_string()];
    match session.on_event(Event::Listed(Some(names))) {
        Action::ReadGroups { groups } => {
            assert_eq!(groups.len(), 1);
            assert_eq!(groups[0].table, "nation");
            assert_eq!(groups[0].files, vec!["nation.tbl".to_string()]);
        }
        other => panic!("unexpected action {:?}", other),
    }
    let inputs = vec![TableInput { table: "nation".to_string(), shards: vec![b"0|ALGERIA|0|haggle|\n".to_vec()] }];
    assert!(matches!(session.on_event(Event::FilesRead(Some(inputs))), Action::CloseWorkspace));
    assert!(matches!(session.on_event(Event::Closed(true)), Action::Finish));
    let tables = session.finish().unwrap();
    assert_eq!(tables.len(), 1);
    assert_eq!(tables[0].table, "nation");
    assert_eq!(tables[0].batches[0].batch.num_rows(), 1);
}

#[test]
fn failed_generation_still_closes_workspace() {
    let (mut session, _) = Session::start(request(None, None, None));
    session.on_event(Event::Opened(true));
    assert!(matches!(session.on_event(Event::Generated(Ok(3))), Action::CloseWorkspace));
    assert!(matches!(session.on_event(Event::Closed(false)), Action::Finish));
    assert!(matches!(session.finish(), Err(DbgenError::GenerationFailed { code: 3 })));
}

#[test]
fn cleanup_failure_is_surfaced_after_success() {
    let (mut session, _) = Session::start(request(None, None, None));
    session.on_event(Event::Opened(true));
    session.on_event(Event::Generated(Ok(0)));
    session.on_event(Event::Listed(Some(Vec::new())));
    session.on_event(Event::FilesRead(Some(Vec::new())));
    session.on_event(Event::Closed(false));
    assert!(matches!(session.finish(), Err(DbgenError::WorkspaceError)));
}

#[test]
fn workspace_failure_ends_session() {
    let (mut session, _) = Session::start(request(None, None, None));
    assert!(matches!(session.on_event(Event::Opened(false)), Action::Finish));
    assert!(matches!(session.finish(), Err(DbgenError::WorkspaceError)));
}

#[test]
fn scale_defaults_to_one() {
    let r = Request::new(None, Some(2), Some(4), Some(Table::Nation));
    assert_eq!(r.scale, 1);
    assert_eq!(DEFAULT_SCALE, 1);
    assert_eq!((r.step, r.n_steps), (Some(2), Some(4)));
    assert_eq!(Request::new(Some(10), None, None, None).scale, 10);
}

#[test]
fn files_that_do_not_match_the_listing_are_refused() {
    let (mut session, _) = Session::start(request(None, None, None));
    session.on_event(Event::Opened(true));
    session.on_event(Event::Generated(Ok(0)));
    session.on_event(Event::Listed(Some(vec!["region.tbl".to_string()])));
    let inputs = vec![TableInput { table: "nation".to_string(), shards: vec![b"0|ALGERIA|0|haggle|\n".to_vec()] }];
    session.on_event(Event::FilesRead(Some(inputs)));
    session.on_event(Event::Closed(true));
    assert!(matches!(session.finish(), Err(DbgenError::WorkspaceError)));
}

#[test]
fn listing_failure_closes_workspace() {
    let (mut session, _) = Session::start(request(None, None, None));
    session.on_event(Event::Opened(true));
    session.on_event(Event::Generated(Ok(0)));
    assert!(matches!(session.on_event(Event::Listed(None)), Action::CloseWorkspace));
    session.on_event(Event::Closed(true));
    assert!(matches!(session.finish(), Err(DbgenError::WorkspaceError)));
}
