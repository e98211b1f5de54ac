use twdl::{
    plan_clip_download, BatchRun, FetchError, SourceFile, TaskOutcome, Transfer, TransferAction,
    TransferEvent, TransferStage,
};

fn file(q: u32) -> SourceFile {
    SourceFile {
        quality: q,
        frame_rate: 30,
        url: format!("https://clips.example.com/{q}.mp4"),
    }
}

/// Runs `outcomes.len()` tasks `chunk` at a time and returns the batches handed out.
fn run_all(run: &mut BatchRun, outcomes: &[TaskOutcome]) -> Vec<(usize, usize)> {
    let mut batches = Vec::new();
    while let Some((lo, hi)) = run.next_batch() {
        assert_eq!(run.progress(), lo);
        batches.push((lo, hi));
        run.settle_batch(outcomes[lo..hi].to_vec());
        assert_eq!(run.progress(), hi);
    }
    batches
}

#[test]
fn clip_goes_to_its_best_rendition_and_named_file() {
    let task = plan_clip_download("AwkwardClip-x1", &vec![file(480), file(1080), file(720)]).unwrap();
    assert_eq!(task.file_name, "AwkwardClip-x1.mp4");
    assert_eq!(task.target_url, "https://clips.example.com/1080.mp4");
}

#[test]
fn clip_without_rendition_is_not_planned() {
    assert!(matches!(
        plan_clip_download("abc", &vec![]),
        Err(FetchError::NoSourceFound)
    ));
}

#[test]
fn second_batch_waits_for_the_first() {
    let outcomes: Vec<TaskOutcome> = vec![Ok(()); 5];
    let mut run = BatchRun::new(5, 2);
    let batches = run_all(&mut run, &outcomes);
    assert_eq!(batches, vec![(0, 2), (2, 4), (4, 5)]);
}

#[test]
fn failed_task_stops_nothing() {
    let outcomes: Vec<TaskOutcome> = vec![
        Ok(()),
        Ok(()),
        Err(FetchError::TransferFailed),
        Ok(()),
        Ok(()),
    ];
    let mut run = BatchRun::new(5, 5);
    let batches = run_all(&mut run, &outcomes);
    assert_eq!(batches, vec![(0, 5)]);
    assert_eq!(run.progress(), 5);
    let report = run.report();
    assert_eq!(report.succeeded, 4);
    assert_eq!(report.failed, vec![2]);
}

#[test]
fn failures_across_batches_are_all_reported() {
    let outcomes: Vec<TaskOutcome> = vec![
        Err(FetchError::NoSourceFound),
        Ok(()),
        Ok(()),
        Err(FetchError::TransferFailed),
        Err(FetchError::MalformedMetadata),
    ];
    let mut run = BatchRun::new(5, 2);
    run_all(&mut run, &outcomes);
    let report = run.report();
    assert_eq!(report.succeeded, 2);
    assert_eq!(report.failed, vec![0, 3, 4]);
}

#[test]
fn empty_run_has_no_batch() {
    let mut run = BatchRun::new(0, 10);
    assert_eq!(run.next_batch(), None);
    assert!(run_all(&mut run, &[]).is_empty());
    assert_eq!(run.report().succeeded, 0);
}

#[test]
fn chunk_larger_than_run_gives_one_batch() {
    let outcomes: Vec<TaskOutcome> = vec![Ok(()); 3];
    let mut run = BatchRun::new(3, 10);
    assert_eq!(run_all(&mut run, &outcomes), vec![(0, 3)]);
}

#[test]
fn transfer_streams_chunks_in_order() {
    let mut t = Transfer::new();
    assert_eq!(t.stage, TransferStage::Requesting);
    assert_eq!(t.on_event(TransferEvent::Responded), TransferAction::CreateFile);
    assert_eq!(t.on_event(TransferEvent::FileCreated), TransferAction::ReadChunk);
    for _ in 0..3 {
        assert_eq!(t.on_event(TransferEvent::ChunkArrived), TransferAction::WriteChunk);
        assert_eq!(t.stage, TransferStage::Writing);
        assert_eq!(t.on_event(TransferEvent::ChunkWritten), TransferAction::ReadChunk);
    }
    assert_eq!(t.on_event(TransferEvent::StreamEnded), TransferAction::Finish(Ok(())));
    assert_eq!(t.stage, TransferStage::Finished);
}

#[test]
fn transfer_fails_on_request_error() {
    let mut t = Transfer::new();
    assert_eq!(
        t.on_event(TransferEvent::RequestFailed),
        TransferAction::Finish(Err(FetchError::TransferFailed))
    );
    assert_eq!(t.stage, TransferStage::Finished);
}

#[test]
fn transfer_fails_on_create_stream_or_write_error() {
    let mut t = Transfer::new();
    t.on_event(TransferEvent::Responded);
    assert_eq!(
        t.on_event(TransferEvent::CreateFailed),
        TransferAction::Finish(Err(FetchError::TransferFailed))
    );

    let mut t = Transfer::new();
    t.on_event(TransferEvent::Responded);
    t.on_event(TransferEvent::FileCreated);
    assert_eq!(
        t.on_event(TransferEvent::StreamFailed),
        TransferAction::Finish(Err(FetchError::TransferFailed))
    );

    let mut t = Transfer::new();
    t.on_event(TransferEvent::Responded);
    t.on_event(TransferEvent::FileCreated);
    t.on_event(TransferEvent::ChunkArrived);
    assert_eq!(
        t.on_event(TransferEvent::WriteFailed),
        TransferAction::Finish(Err(FetchError::TransferFailed))
    );
    assert_eq!(t.stage, TransferStage::Finished);
}

#[test]
fn transfer_fails_on_event_out_of_place() {
    let mut t = Transfer::new();
    assert_eq!(
        t.on_event(TransferEvent::ChunkArrived),
        TransferAction::Finish(Err(FetchError::TransferFailed))
    );
    let mut t = Transfer::new();
    t.on_event(TransferEvent::Responded);
    t.on_event(TransferEvent::FileCreated);
    t.on_event(TransferEvent::ChunkArrived);
    assert_eq!(
        t.on_event(TransferEvent::StreamEnded),
        TransferAction::Finish(Err(FetchError::TransferFailed))
    );
}
