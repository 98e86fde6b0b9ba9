use immaterium::{Block, BlockManager};

#[test]
fn test_block_manager_creation() {
    let manager = BlockManager::new();
    assert_eq!(manager.count(), 0);
}

#[test]
fn test_add_and_get_block() {
    let mut manager = BlockManager::new();
    let block = Block::new("echo test".to_string(), "/tmp".to_string());
    let id = block.id;

    manager.add_block(block);
    assert_eq!(manager.count(), 1);

    let retrieved = manager.get_block(&id);
    assert!(retrieved.is_some());
    assert_eq!(retrieved.unwrap().command, "echo test");
}

#[test]
fn test_remove_block() {
    let mut manager = BlockManager::new();
    let block = Block::new("echo test".to_string(), "/tmp".to_string());
    let id = block.id;

    manager.add_block(block);
    assert_eq!(manager.count(), 1);

    let removed = manager.remove_block(&id);
    assert!(removed.is_some());
    assert_eq!(manager.count(), 0);
}

#[test]
fn test_block_selection() {
    let mut manager = BlockManager::new();
    let block1 = Block::new("echo 1".to_string(), "/tmp".to_string());
    let block2 = Block::new("echo 2".to_string(), "/tmp".to_string());
    let id1 = block1.id;
    let id2 = block2.id;

    manager.add_block(block1);
    manager.add_block(block2);

    manager.select_block(id1);
    assert!(manager.get_selected_block().is_some());
    assert_eq!(manager.get_selected_block().unwrap().id, id1);

    manager.select_block(id2);
    assert_eq!(manager.get_selected_block().unwrap().id, id2);

    manager.deselect_all();
    assert!(manager.get_selected_block().is_none());
}

#[test]
fn test_copy_operations() {
    let mut manager = BlockManager::new();
    let mut block = Block::new("echo test".to_string(), "/tmp".to_string());
    block.output = "test output".to_string();
    block.exit_code = Some(0);
    let id = block.id;

    manager.add_block(block);

    assert_eq!(manager.copy_block_command(&id), Some("echo test".to_string()));
    assert_eq!(manager.copy_block_output(&id), Some("test output".to_string()));

    let full = manager.copy_block_full(&id).unwrap();
    assert!(full.contains("echo test"));
    assert!(full.contains("test output"));
    assert!(full.contains("[Exit code: 0]"));
}

#[test]
fn test_copy_block_full_exact_text() {
    let mut manager = BlockManager::new();
    let mut block = Block::new("ls".to_string(), "/tmp".to_string());
    block.output = "file1".to_string();
    let id = block.id;
    manager.add_block(block);
    // No exit code recorded: the copy shows the conventional -1.
    assert_eq!(
        manager.copy_block_full(&id),
        Some("$ ls\nfile1\n[Exit code: -1]".to_string())
    );
}

#[test]
fn test_selection_is_exclusive() {
    let mut manager = BlockManager::new();
    let a = Block::new("echo a".to_string(), "/tmp".to_string());
    let b = Block::new("echo b".to_string(), "/tmp".to_string());
    let id_a = a.id;
    let id_b = b.id;
    manager.add_block(a);
    manager.add_block(b);

    // Select B, then A: only A reports selected afterwards.
    manager.select_block(id_b);
    manager.select_block(id_a);
    let mut selected = 0;
    for blk in manager.get_blocks() {
        if blk.is_selected {
            selected += 1;
            assert_eq!(blk.id, id_a);
        }
    }
    assert_eq!(selected, 1);

    // Selecting A again changes nothing: still only A.
    manager.select_block(id_a);
    let selected_again: Vec<u128> = manager
        .get_blocks()
        .iter()
        .filter(|blk| blk.is_selected)
        .map(|blk| blk.id)
        .collect();
    assert_eq!(selected_again, vec![id_a]);
}

#[test]
fn test_missing_id_operations_are_noops() {
    let mut manager = BlockManager::new();
    let block = Block::new("echo real".to_string(), "/tmp".to_string());
    manager.add_block(block);

    let ghost_id: u128 = 0xdead_beef_dead_beef_dead_beef_dead_beef;
    assert!(manager.get_block(&ghost_id).is_none());
    // Selecting a missing ID changes nothing, not even the current selection.
    let real_id = manager.get_blocks()[0].id;
    manager.select_block(real_id);
    manager.select_block(ghost_id);
    assert_eq!(manager.get_selected_block().unwrap().id, real_id);
    assert!(manager.get_blocks()[0].is_selected);
    assert!(manager.remove_block(&ghost_id).is_none());
    assert!(manager.copy_block_command(&ghost_id).is_none());
    assert!(manager.copy_block_output(&ghost_id).is_none());
    assert!(manager.copy_block_full(&ghost_id).is_none());
    assert!(manager.duplicate_block_for_edit(&ghost_id).is_none());
    manager.toggle_block_collapsed(&ghost_id);
    assert_eq!(manager.count(), 1);
}

#[test]
fn test_duplicate_block_for_edit_clones_command() {
    let mut manager = BlockManager::new();
    let mut block = Block::new("make all".to_string(), "/src".to_string());
    block.start_execution();
    block.complete_execution(0);
    let id = block.id;
    manager.add_block(block);

    let new_id = manager.duplicate_block_for_edit(&id).unwrap();
    assert_eq!(manager.count(), 2);
    let copy = manager.get_block(&new_id).unwrap();
    assert_eq!(copy.command, "make all");
    assert_eq!(copy.metadata.working_directory, "/src");
    assert_eq!(copy.state, immaterium::BlockState::Editing);
    assert_eq!(copy.output, "");
    assert_eq!(copy.exit_code, None);
    // The original is untouched.
    let original = manager.get_block(&id).unwrap();
    assert_eq!(original.exit_code, Some(0));
}

#[test]
fn test_get_running_blocks_filters() {
    let mut manager = BlockManager::new();
    let mut running = Block::new("sleep 5".to_string(), "/tmp".to_string());
    running.start_execution();
    let running_id = running.id;
    let idle = Block::new("echo idle".to_string(), "/tmp".to_string());
    manager.add_block(running);
    manager.add_block(idle);

    let running_blocks = manager.get_running_blocks();
    assert_eq!(running_blocks.len(), 1);
    assert_eq!(running_blocks[0].id, running_id);
}

#[test]
fn test_clear_all_resets_selection() {
    let mut manager = BlockManager::new();
    let block = Block::new("echo x".to_string(), "/tmp".to_string());
    let id = block.id;
    manager.add_block(block);
    manager.select_block(id);
    manager.clear_all();
    assert_eq!(manager.count(), 0);
    assert!(manager.get_selected_block().is_none());
}
