use via_voice::response::{
    merge_response_context, response_activity_context_patch, CorrelatedContext, PendingTranscript, ResponseContext,
    ResponseContexts, ResponseOrigin, ServerEvent, RESPONSE_ACTIVITY_TYPES, RESPONSE_FAILURE_STATUSES,
};

fn correlated(turn_id: &str) -> CorrelatedContext {
    CorrelatedContext { turn_id: Some(turn_id.to_owned()), ..CorrelatedContext::default() }
}

#[test]
fn the_response_id_resolution_order_is_the_catalogued_one() {
    let mut event = ServerEvent::new("response.done");
    assert_eq!(event.realtime_response_id(), "");
    event.item_response_id = Some("from_item".to_owned());
    assert_eq!(event.realtime_response_id(), "from_item");
    event.response_object_id = Some("from_response".to_owned());
    assert_eq!(event.realtime_response_id(), "from_response");
    event.response_id = Some("from_top".to_owned());
    assert_eq!(event.realtime_response_id(), "from_top");
    // An empty string is skipped, not returned.
    event.response_id = Some(String::new());
    assert_eq!(event.realtime_response_id(), "from_response");
}

#[test]
fn activity_needs_both_an_id_and_a_known_type() {
    let mut event = ServerEvent::new("response.audio.delta");
    assert!(!event.is_response_activity(), "no id proves nothing");
    event.response_id = Some("resp_1".to_owned());
    assert!(event.is_response_activity());
    event.event_type = "session.updated".to_owned();
    assert!(!event.is_response_activity());
}

#[test]
fn every_catalogued_activity_type_counts() {
    for event_type in RESPONSE_ACTIVITY_TYPES {
        let mut event = ServerEvent::new(event_type);
        event.response_id = Some("resp_1".to_owned());
        assert!(event.is_response_activity(), "{event_type} is not activity");
    }
    assert_eq!(RESPONSE_ACTIVITY_TYPES.len(), 20);
}

#[test]
fn a_later_delta_without_metadata_keeps_the_correlated_context() {
    let existing = ResponseContext {
        turn_id: "voice-1".to_owned(),
        origin: ResponseOrigin::Announcement,
        task_ids: vec!["work_a".to_owned()],
        ..ResponseContext::default()
    };
    let fallback = ResponseContext { turn_id: "voice-9".to_owned(), origin: ResponseOrigin::Model, ..ResponseContext::default() };
    let delta = ServerEvent::new("response.audio.delta");
    let patch = response_activity_context_patch(Some(&existing), &delta, &fallback);
    // Nothing from the fallback leaked in.
    assert_eq!(patch.turn_id, "");
    assert_eq!(patch.origin, ResponseOrigin::Model);

    let mut contexts = ResponseContexts::new();
    contexts.insert("resp_1", existing);
    // The merge is where the preservation actually shows.
    merge_response_context(&mut contexts, "resp_1", patch);
    let merged = contexts.get("resp_1").expect("merged").clone();
    assert_eq!(merged.turn_id, "");
    assert!(merged.task_ids.is_empty());
}

#[test]
fn a_first_sighting_takes_the_whole_fallback() {
    let fallback = ResponseContext {
        turn_id: "voice-9".to_owned(),
        turn_generation: 4,
        origin: ResponseOrigin::Model,
        ..ResponseContext::default()
    };
    let event = ServerEvent::new("response.created");
    let patch = response_activity_context_patch(None, &event, &fallback);
    assert_eq!(patch.turn_id, "voice-9");
    assert_eq!(patch.turn_generation, 4);
}

#[test]
fn correlation_arriving_late_does_not_unplay_audio() {
    let mut contexts = ResponseContexts::new();
    let mut context = ResponseContext { playback_started: true, has_audio: true, ..ResponseContext::default() };
    context.pending_transcripts.push(PendingTranscript { content: "hi".to_owned(), final_fragment: false });
    contexts.insert("resp_1", context);

    let mut done = ServerEvent::new("response.done");
    done.response_id = Some("resp_1".to_owned());
    done.voice_origin = Some(ResponseOrigin::Announcement);
    done.voice_context = Some(correlated("voice-1"));
    let existing = contexts.get("resp_1").cloned();
    let patch = response_activity_context_patch(existing.as_ref(), &done, &ResponseContext::default());
    merge_response_context(&mut contexts, "resp_1", patch);
    let merged = contexts.get("resp_1").expect("merged").clone();
    assert!(merged.playback_started, "playback progress survived");
    assert!(merged.has_audio, "audio flag survived");
    assert_eq!(merged.pending_transcripts.len(), 1);
    assert_eq!(merged.origin, ResponseOrigin::Announcement);
    assert_eq!(merged.turn_id, "voice-1");
}

#[test]
fn a_streaming_transcript_concatenates_text_and_stash() {
    let mut event = ServerEvent::new("conversation.item.input_audio_transcription.delta");
    event.text = Some("你好".to_owned());
    event.stash = Some("世界 ".to_owned());
    assert_eq!(event.streaming_input_transcript(), "你好世界");

    // The alternate ASR spelling behaves identically.
    event.event_type = "conversation.item.input_audio_transcription.text".to_owned();
    assert_eq!(event.streaming_input_transcript(), "你好世界");

    // Anything else is empty, even with the fields set.
    event.event_type = "response.audio.delta".to_owned();
    assert_eq!(event.streaming_input_transcript(), "");
}

#[test]
fn sleep_activity_covers_response_output_and_the_four_input_events() {
    let mut delta = ServerEvent::new("response.audio.delta");
    delta.response_id = Some("resp_1".to_owned());
    assert!(delta.is_sleep_activity());
    for event_type in [
        "input_audio_buffer.speech_started",
        "input_audio_buffer.speech_stopped",
        "conversation.item.input_audio_transcription.delta",
        "conversation.item.input_audio_transcription.completed",
    ] {
        assert!(ServerEvent::new(event_type).is_sleep_activity(), "{event_type}");
    }
    // Committed is deliberately not in the list.
    assert!(!ServerEvent::new("input_audio_buffer.committed").is_sleep_activity());
}

#[test]
fn the_three_failure_statuses_and_nothing_else() {
    for status in RESPONSE_FAILURE_STATUSES {
        let mut event = ServerEvent::new("response.done");
        event.response_status = Some(status.to_owned());
        assert!(event.response_failed(), "{status}");
    }
    let mut ok = ServerEvent::new("response.done");
    ok.response_status = Some("completed".to_owned());
    assert!(!ok.response_failed());
    assert!(!ServerEvent::new("response.done").response_failed());
}

#[test]
fn task_ids_prefers_the_batch_list() {
    let mut context = ResponseContext { task_id: Some("work_single".to_owned()), ..ResponseContext::default() };
    assert_eq!(context.task_ids(), vec!["work_single".to_owned()]);
    context.task_ids = vec!["work_a".to_owned(), "work_b".to_owned()];
    assert_eq!(context.task_ids(), vec!["work_a".to_owned(), "work_b".to_owned()]);
}

#[test]
fn only_all_three_terminal_signals_complete_a_context() {
    let mut context = ResponseContext::default();
    for (playback, response, transcript) in [(true, true, false), (true, false, true), (false, true, true)] {
        context.playback_ended = playback;
        context.response_done = response;
        context.transcript_done = transcript;
        assert!(!context.is_complete());
    }
    context.transcript_done = true;
    context.playback_ended = true;
    context.response_done = true;
    assert!(context.is_complete());
}

#[test]
fn playback_start_confirms_an_announcement_or_a_consuming_status_answer() {
    let announcement = ResponseContext { origin: ResponseOrigin::Announcement, ..ResponseContext::default() };
    assert!(announcement.confirms_task_notification_on_playback_start());
    let consuming =
        ResponseContext { origin: ResponseOrigin::Model, consumes_task_notification: true, ..ResponseContext::default() };
    assert!(consuming.confirms_task_notification_on_playback_start());
    assert!(!ResponseContext::default().confirms_task_notification_on_playback_start());
}

#[test]
fn origin_round_trips_through_the_wire_spelling() {
    for origin in [
        ResponseOrigin::Model,
        ResponseOrigin::Announcement,
        ResponseOrigin::Permission,
        ResponseOrigin::Agent,
        ResponseOrigin::Progress,
    ] {
        assert_eq!(ResponseOrigin::from_wire(origin.as_str()), Some(origin));
    }
    assert_eq!(ResponseOrigin::from_wire("nonsense"), None);
}
