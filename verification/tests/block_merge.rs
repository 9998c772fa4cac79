use claude_view_server::blocks::{merge_hook_blocks_by_timestamp, TimedBlock};

fn at(ts: i64, id: &'static str) -> TimedBlock<&'static str> {
    TimedBlock { ts: Some(ts), block: id }
}

#[test]
fn merge_hook_blocks_preserves_order_and_inserts_by_timestamp() {
    let blocks = vec![at(100, "user-1"), at(300, "user-2")];
    let hook_blocks = vec![at(50, "hook-db-50-0"), at(200, "hook-db-200-1"), at(400, "hook-db-400-2")];
    let merged = merge_hook_blocks_by_timestamp(blocks, hook_blocks);
    assert_eq!(merged.len(), 5);
    assert_eq!(merged[0], "hook-db-50-0");
    assert_eq!(merged[1], "user-1");
    assert_eq!(merged[2], "hook-db-200-1");
    assert_eq!(merged[3], "user-2");
    assert_eq!(merged[4], "hook-db-400-2");
}

#[test]
fn merge_hook_blocks_handles_hooks_during_assistant_tool_execution() {
    let blocks = vec![at(100, "asst-1"), at(105, "user-result"), at(200, "asst-2")];
    let hook_blocks = vec![at(102, "hook-102"), at(150, "hook-150"), at(160, "hook-160"), at(190, "hook-190")];
    let merged = merge_hook_blocks_by_timestamp(blocks, hook_blocks);
    assert_eq!(merged.len(), 7);
    assert_eq!(merged[0], "asst-1");
    assert_eq!(merged[1], "hook-102");
    assert_eq!(merged[2], "user-result");
    assert_eq!(merged[3], "hook-150");
    assert_eq!(merged[4], "hook-160");
    assert_eq!(merged[5], "hook-190");
    assert_eq!(merged[6], "asst-2");
}

#[test]
fn merge_keeps_untimed_blocks_first_and_ties_in_order() {
    let blocks = vec![at(10, "a"), TimedBlock { ts: None, block: "sys" }, at(20, "b")];
    let hook_blocks = vec![at(20, "h20"), at(10, "h10")];
    let merged = merge_hook_blocks_by_timestamp(blocks, hook_blocks);
    assert_eq!(merged, vec!["sys", "a", "h10", "b", "h20"]);
    let unchanged = merge_hook_blocks_by_timestamp(vec![at(5, "x"), at(1, "y")], vec![]);
    assert_eq!(unchanged, vec!["x", "y"]);
}
