use via_voice::announcement::format::{
    format_progress, format_restored_context, format_work_results, truncate_result, Announcement, AnnouncementEvent,
};
use via_voice::text::code_point_len;

/// The catalog's sentences, as the host supplies them.
const HEADER: &str = "以下是后台任务的结果，请用自然口吻转告用户。";
const SUFFIX: &str = "…（结果已截断）";
const PROGRESS_NOTE: &str = "这是进度，不是最终结果。";
const RESTORED_NOTE: &str = "以下是断线前的对话，不是新的请求。";

#[test]
fn a_completed_block_renders_every_field_in_order() {
    let announcement = Announcement::completed("work_1", "查一下天气", "晴，26 度").at(Some(1_700_000_000_000));
    assert_eq!(
        announcement.block(0),
        "--- event 1 ---\ntype: task.completed\nwork_id: work_1\noriginal_request: 查一下天气\ncompleted_at: 2023-11-14T22:13:20.000Z\nresult:\n晴，26 度",
    );
}

#[test]
fn a_failed_block_carries_the_error_line_instead() {
    let announcement = Announcement::failed("work_2", "跑测试", "端口被占用");
    assert_eq!(
        announcement.block(1),
        "--- event 2 ---\ntype: task.failed\nwork_id: work_2\noriginal_request: 跑测试\nerror:\n端口被占用",
    );
}

#[test]
fn empty_optional_lines_are_omitted_rather_than_blank() {
    let announcement = Announcement::completed("work_3", "", "done");
    let block = announcement.block(0);
    assert!(!block.contains("original_request"));
    assert!(!block.contains("completed_at"));
    assert_eq!(block, "--- event 1 ---\ntype: task.completed\nwork_id: work_3\nresult:\ndone");
}

#[test]
fn the_envelope_wraps_every_block() {
    let text = format_work_results(
        &[Announcement::completed("work_1", "a", "one"), Announcement::failed("work_2", "b", "two")],
        HEADER,
    );
    assert!(text.starts_with("[COMPLETE]\n<via_work_results>\n"));
    assert!(text.ends_with("\n</via_work_results>"));
    assert!(text.contains("--- event 1 ---"));
    assert!(text.contains("--- event 2 ---"));
    assert!(text.contains(HEADER));
    assert!(!text.contains("qwen"), "the wrapper is rebranded");
}

#[test]
fn an_empty_batch_still_produces_a_well_formed_envelope() {
    let text = format_work_results(&[], HEADER);
    assert_eq!(text, format!("[COMPLETE]\n<via_work_results>\n{HEADER}\n</via_work_results>"));
}

#[test]
fn truncation_counts_code_points_and_appends_the_notice() {
    let long = "阿".repeat(200);
    let clipped = truncate_result(&long, 50, SUFFIX);
    assert_eq!(code_point_len(&clipped), 50);
    assert!(clipped.ends_with(SUFFIX));
}

#[test]
fn text_within_the_budget_is_returned_trimmed_and_whole() {
    assert_eq!(truncate_result("  hello  ", 100, SUFFIX), "hello");
    let exact = "阿".repeat(10);
    assert_eq!(truncate_result(&exact, 10, SUFFIX), exact);
}

#[test]
fn a_budget_no_larger_than_the_notice_hard_clips_instead() {
    let suffix_len = code_point_len(SUFFIX);
    let long = "阿".repeat(200);
    let clipped = truncate_result(&long, suffix_len, SUFFIX);
    assert_eq!(code_point_len(&clipped), suffix_len);
    assert!(!clipped.contains('…'));
}

#[test]
fn a_zero_budget_is_floored_at_one_character() {
    let clipped = truncate_result("abcdef", 0, SUFFIX);
    assert_eq!(clipped, "a");
}

#[test]
fn an_unrepresentable_completion_instant_drops_only_its_line() {
    let announcement = Announcement::completed("work_1", "x", "y").at(Some(i64::MAX));
    let block = announcement.block(0);
    assert!(!block.contains("completed_at"));
    assert!(block.contains("result:\ny"));
}

#[test]
fn the_progress_envelope_says_it_is_not_a_result() {
    let text = format_progress("已经跑完一半", PROGRESS_NOTE);
    assert!(text.starts_with("[PROGRESS]\n<via_progress>\n"));
    assert!(text.ends_with("已经跑完一半\n</via_progress>"));
    assert!(text.contains(PROGRESS_NOTE));
    assert!(!text.contains("qwen"));
}

#[test]
fn the_restored_context_block_is_labelled_as_not_a_new_request() {
    let text = format_restored_context("<recent_conversation>x</recent_conversation>", RESTORED_NOTE);
    assert!(text.starts_with("<restored_context>\n"));
    assert!(text.ends_with("\n</restored_context>"));
    assert!(text.contains(RESTORED_NOTE));
}

#[test]
fn the_event_names_come_from_the_protocol() {
    assert_eq!(AnnouncementEvent::Completed.as_str(), "task.completed");
    assert_eq!(AnnouncementEvent::Failed.as_str(), "task.failed");
}

#[test]
fn a_completion_instant_renders_with_milliseconds_in_utc() {
    let block = Announcement::completed("w", "", "r").at(Some(0)).block(0);
    assert!(block.contains("completed_at: 1970-01-01T00:00:00.000Z"));
}

#[test]
fn the_event_names_come_from_via_protocol() {
    assert_eq!(AnnouncementEvent::Completed.as_str(), "task.completed");
    assert_eq!(AnnouncementEvent::Failed.as_str(), "task.failed");
}
