use cross_shard::{
    CrossShardCommitReceiver, CrossShardCommitSender, CrossShardEdge, CrossShardMsg,
    CrossShardStateView, DependencyIndex, OutboundMessage, OverlayError, ReadOutcome,
    ReceiveError, ReceiverStep, RemoteTxnWrite, StateKey, SubBlock, TransactionOutcome,
    TransactionWithDependencies, WriteEntry,
};

fn key(s: &str) -> StateKey {
    StateKey::new(s.as_bytes().to_vec())
}

fn edge(shard: usize, k: &str) -> CrossShardEdge {
    CrossShardEdge::new(shard, key(k))
}

fn txn(edges: Vec<CrossShardEdge>) -> TransactionWithDependencies {
    TransactionWithDependencies { dependent_edges: edges }
}

fn write(k: &str, v: Option<&[u8]>) -> WriteEntry {
    WriteEntry { state_key: key(k), value: v.map(|b| b.to_vec()) }
}

fn summary(msgs: &[OutboundMessage]) -> Vec<(usize, Vec<u8>, Option<Vec<u8>>)> {
    let mut out: Vec<_> = msgs
        .iter()
        .map(|m| (m.dest, m.write.state_key.bytes.clone(), m.write.value.clone()))
        .collect();
    out.sort();
    out
}

fn remote(k: &str, v: Option<&[u8]>) -> CrossShardMsg {
    CrossShardMsg::RemoteTxnWriteMsg(RemoteTxnWrite::new(key(k), v.map(|b| b.to_vec())))
}

fn block_with_edges_at(start: u32, len: usize, at: usize, edges: Vec<CrossShardEdge>) -> SubBlock {
    let mut transactions: Vec<TransactionWithDependencies> = (0..len).map(|_| txn(vec![])).collect();
    transactions[at] = txn(edges);
    SubBlock { start_index: start, transactions }
}

#[test]
fn index_is_sparse_and_keyed_by_global_index() {
    let block = block_with_edges_at(10, 4, 2, vec![edge(1, "a")]);
    let index = DependencyIndex::build(&block);
    assert_eq!(index.index_offset(), 10);
    assert!(index.has_dependents(12));
    assert!(!index.has_dependents(2));
    assert!(!index.has_dependents(10));
    assert!(!index.has_dependents(11));
    assert!(!index.has_dependents(13));
    assert!(!index.has_dependents(14));
}

#[test]
fn index_deduplicates_repeated_declarations() {
    let block = block_with_edges_at(
        0,
        1,
        0,
        vec![edge(1, "a"), edge(2, "a"), edge(1, "a"), edge(1, "b"), edge(2, "a")],
    );
    let index = DependencyIndex::build(&block);
    let edges = index.dependents_of(0).unwrap();
    let mut pairs: Vec<(Vec<u8>, usize)> =
        edges.iter().map(|e| (e.state_key.bytes.clone(), e.shard_id)).collect();
    pairs.sort();
    assert_eq!(
        pairs,
        vec![(b"a".to_vec(), 1), (b"a".to_vec(), 2), (b"b".to_vec(), 1)]
    );
    assert!(index.dependents_of(1).is_none());
}

#[test]
fn no_dependencies_no_messages_and_no_waiting() {
    let block = SubBlock { start_index: 5, transactions: (0..3).map(|_| txn(vec![])).collect() };
    let sender = CrossShardCommitSender::new(0, &block);
    for local in 0..3u32 {
        assert!(!sender.has_dependents(local + 5));
        let outcome = TransactionOutcome::Success(vec![write("a", Some(b"x"))]);
        assert!(sender.on_transaction_committed(local, &outcome).is_empty());
        assert!(sender.on_transaction_committed(local, &TransactionOutcome::Abort).is_empty());
    }
    let view = CrossShardStateView::new(&vec![]);
    assert!(matches!(view.read(&key("a")), ReadOutcome::NotOverlaid));
    assert!(view.is_fully_resolved());
}

#[test]
fn global_index_adds_the_offset() {
    let block = block_with_edges_at(100, 8, 7, vec![edge(1, "k")]);
    let sender = CrossShardCommitSender::new(0, &block);
    assert_eq!(sender.index_offset(), 100);
    assert_eq!(sender.global_txn_index(7), Some(107));
    assert!(sender.has_dependents(107));
    assert!(!sender.has_dependents(7));
    let outcome = TransactionOutcome::Success(vec![write("k", Some(b"v"))]);
    let msgs = sender.on_transaction_committed(7, &outcome);
    assert_eq!(summary(&msgs), vec![(1, b"k".to_vec(), Some(b"v".to_vec()))]);
    // Local index 0 is global index 100, which declares nothing.
    assert!(sender.on_transaction_committed(0, &outcome).is_empty());
}

#[test]
fn global_index_overflow_is_none() {
    let block = SubBlock { start_index: u32::MAX, transactions: vec![txn(vec![edge(1, "k")])] };
    let sender = CrossShardCommitSender::new(3, &block);
    assert_eq!(sender.shard_id(), 3);
    assert_eq!(sender.global_txn_index(0), Some(u32::MAX));
    assert_eq!(sender.global_txn_index(1), None);
    assert!(sender.on_transaction_committed(1, &TransactionOutcome::Abort).is_empty());
    assert_eq!(sender.on_transaction_committed(0, &TransactionOutcome::Abort).len(), 1);
}

#[test]
fn success_fans_out_each_key_to_each_consumer() {
    let block = block_with_edges_at(
        0,
        2,
        1,
        vec![edge(1, "a"), edge(2, "a"), edge(2, "b"), edge(1, "a")],
    );
    let sender = CrossShardCommitSender::new(0, &block);
    let outcome = TransactionOutcome::Success(vec![
        write("a", Some(b"1")),
        write("c", Some(b"3")),
        write("b", Some(b"2")),
    ]);
    let msgs = sender.on_transaction_committed(1, &outcome);
    assert_eq!(
        summary(&msgs),
        vec![
            (1, b"a".to_vec(), Some(b"1".to_vec())),
            (2, b"a".to_vec(), Some(b"1".to_vec())),
            (2, b"b".to_vec(), Some(b"2".to_vec())),
        ]
    );
}

#[test]
fn untouched_key_is_sent_as_absent() {
    let block = block_with_edges_at(0, 1, 0, vec![edge(1, "a"), edge(1, "b")]);
    let sender = CrossShardCommitSender::new(0, &block);
    let outcome = TransactionOutcome::Success(vec![write("a", Some(b""))]);
    let msgs = sender.on_transaction_committed(0, &outcome);
    assert_eq!(
        summary(&msgs),
        vec![(1, b"a".to_vec(), Some(vec![])), (1, b"b".to_vec(), None)]
    );
}

#[test]
fn deletion_is_sent_as_absent() {
    let block = block_with_edges_at(0, 1, 0, vec![edge(1, "a")]);
    let sender = CrossShardCommitSender::new(0, &block);
    let outcome = TransactionOutcome::Success(vec![write("a", None)]);
    let msgs = sender.on_transaction_committed(0, &outcome);
    assert_eq!(summary(&msgs), vec![(1, b"a".to_vec(), None)]);
}

#[test]
fn last_write_of_a_key_wins() {
    let block = block_with_edges_at(0, 1, 0, vec![edge(1, "a")]);
    let sender = CrossShardCommitSender::new(0, &block);
    let outcome =
        TransactionOutcome::Success(vec![write("a", Some(b"old")), write("a", Some(b"new"))]);
    let msgs = sender.on_transaction_committed(0, &outcome);
    assert_eq!(summary(&msgs), vec![(1, b"a".to_vec(), Some(b"new".to_vec()))]);
}

#[test]
fn skip_rest_is_handled_like_success() {
    let block = block_with_edges_at(0, 1, 0, vec![edge(2, "a")]);
    let sender = CrossShardCommitSender::new(1, &block);
    let ws = vec![write("a", Some(b"7"))];
    let ws2 = vec![write("a", Some(b"7"))];
    let a = sender.on_transaction_committed(0, &TransactionOutcome::Success(ws));
    let b = sender.on_transaction_committed(0, &TransactionOutcome::SkipRest(ws2));
    assert_eq!(summary(&a), summary(&b));
    assert_eq!(summary(&b), vec![(2, b"a".to_vec(), Some(b"7".to_vec()))]);
}

#[test]
fn abort_notifies_every_dependent_with_absent() {
    let block = block_with_edges_at(0, 1, 0, vec![edge(1, "a"), edge(2, "a"), edge(2, "b")]);
    let sender = CrossShardCommitSender::new(0, &block);
    let msgs = sender.on_transaction_committed(0, &TransactionOutcome::Abort);
    assert_eq!(
        summary(&msgs),
        vec![(1, b"a".to_vec(), None), (2, b"a".to_vec(), None), (2, b"b".to_vec(), None)]
    );
}

#[test]
fn overlay_reads_follow_the_cell_state() {
    let mut view = CrossShardStateView::new(&vec![key("p"), key("q"), key("p")]);
    assert!(matches!(view.read(&key("local")), ReadOutcome::NotOverlaid));
    assert!(matches!(view.read(&key("p")), ReadOutcome::Pending));
    assert!(matches!(view.read(&key("q")), ReadOutcome::Pending));
    assert!(!view.is_fully_resolved());

    assert!(view.set_value(&key("p"), Some(b"v".to_vec())).is_ok());
    match view.read(&key("p")) {
        ReadOutcome::Resolved(v) => assert_eq!(v, Some(b"v".to_vec())),
        _ => panic!("p should be resolved"),
    }
    assert!(!view.is_fully_resolved());
    assert!(view.set_value(&key("q"), None).is_ok());
    assert!(matches!(view.read(&key("q")), ReadOutcome::Resolved(None)));
    assert!(view.is_fully_resolved());
}

#[test]
fn absent_differs_from_present_empty() {
    let mut view = CrossShardStateView::new(&vec![key("x"), key("y")]);
    view.set_value(&key("x"), None).unwrap();
    view.set_value(&key("y"), Some(vec![])).unwrap();
    let x = match view.read(&key("x")) {
        ReadOutcome::Resolved(v) => v,
        _ => panic!("x should be resolved"),
    };
    let y = match view.read(&key("y")) {
        ReadOutcome::Resolved(v) => v,
        _ => panic!("y should be resolved"),
    };
    assert_eq!(x, None);
    assert_eq!(y, Some(vec![]));
    assert_ne!(x, y);
}

#[test]
fn second_resolution_is_refused_and_changes_nothing() {
    let mut view = CrossShardStateView::new(&vec![key("x")]);
    view.set_value(&key("x"), Some(b"1".to_vec())).unwrap();
    assert!(matches!(
        view.set_value(&key("x"), Some(b"2".to_vec())),
        Err(OverlayError::AlreadyResolved)
    ));
    assert!(matches!(view.set_value(&key("x"), None), Err(OverlayError::AlreadyResolved)));
    for _ in 0..5 {
        match view.read(&key("x")) {
            ReadOutcome::Resolved(v) => assert_eq!(v, Some(b"1".to_vec())),
            _ => panic!("x should stay resolved"),
        }
    }
}

#[test]
fn unknown_key_is_refused() {
    let mut view = CrossShardStateView::new(&vec![key("x")]);
    assert!(matches!(view.set_value(&key("z"), None), Err(OverlayError::UnknownKey)));
    assert!(matches!(view.read(&key("z")), ReadOutcome::NotOverlaid));
    assert!(matches!(view.read(&key("x")), ReadOutcome::Pending));
}

#[test]
fn readers_of_one_key_see_the_same_value() {
    let mut view = CrossShardStateView::new(&vec![key("k")]);
    let waiting: Vec<bool> = (0..4).map(|_| matches!(view.read(&key("k")), ReadOutcome::Pending)).collect();
    assert_eq!(waiting, vec![true; 4]);
    view.set_value(&key("k"), Some(b"shared".to_vec())).unwrap();
    let seen: Vec<Option<Vec<u8>>> = (0..4)
        .map(|_| match view.read(&key("k")) {
            ReadOutcome::Resolved(v) => v,
            _ => panic!("k should be resolved"),
        })
        .collect();
    assert_eq!(seen, vec![Some(b"shared".to_vec()); 4]);
}

#[test]
fn receiver_terminates_only_after_all_stops() {
    let mut view = CrossShardStateView::new(&vec![key("k")]);
    let mut receiver = CrossShardCommitReceiver::new(2);
    assert!(receiver.is_running());
    let step = receiver.handle_message(&mut view, CrossShardMsg::StopMsg);
    assert!(matches!(step, Ok(ReceiverStep::Continue)));
    assert!(receiver.is_running());
    let step = receiver.handle_message(&mut view, remote("k", Some(b"v")));
    assert!(matches!(step, Ok(ReceiverStep::Continue)));
    let step = receiver.handle_message(&mut view, CrossShardMsg::StopMsg);
    assert!(matches!(step, Ok(ReceiverStep::Terminate)));
    assert!(!receiver.is_running());
}

#[test]
fn receiver_refuses_to_end_with_unresolved_cells() {
    let mut view = CrossShardStateView::new(&vec![key("k")]);
    let mut receiver = CrossShardCommitReceiver::new(1);
    let step = receiver.handle_message(&mut view, CrossShardMsg::StopMsg);
    assert!(matches!(step, Err(ReceiveError::UnresolvedAtTeardown)));
}

#[test]
fn receiver_reports_publication_errors() {
    let mut view = CrossShardStateView::new(&vec![key("k")]);
    let mut receiver = CrossShardCommitReceiver::new(1);
    let step = receiver.handle_message(&mut view, remote("other", None));
    assert!(matches!(step, Err(ReceiveError::Overlay(OverlayError::UnknownKey))));
    let step = receiver.handle_message(&mut view, remote("k", None));
    assert!(matches!(step, Ok(ReceiverStep::Continue)));
    let step = receiver.handle_message(&mut view, remote("k", None));
    assert!(matches!(step, Err(ReceiveError::Overlay(OverlayError::AlreadyResolved))));
}

#[test]
fn remote_write_take_returns_its_parts() {
    let w = RemoteTxnWrite::new(key("k"), Some(b"v".to_vec()));
    let (k, v) = w.take();
    assert_eq!(k.bytes, b"k".to_vec());
    assert_eq!(v, Some(b"v".to_vec()));
}

#[test]
fn two_shards_end_to_end() {
    // Shard 0 holds global transactions 0..4; its transaction 3 feeds key K to shard 1.
    let block0 = block_with_edges_at(0, 4, 3, vec![edge(1, "K")]);
    let block1 = SubBlock { start_index: 4, transactions: (0..2).map(|_| txn(vec![])).collect() };
    let sender0 = CrossShardCommitSender::new(0, &block0);
    let sender1 = CrossShardCommitSender::new(1, &block1);
    let mut view0 = CrossShardStateView::new(&vec![]);
    let mut view1 = CrossShardStateView::new(&vec![key("K")]);
    let mut receiver0 = CrossShardCommitReceiver::new(1);
    let mut receiver1 = CrossShardCommitReceiver::new(1);
    let mut inbox0: Vec<CrossShardMsg> = Vec::new();
    let mut inbox1: Vec<CrossShardMsg> = Vec::new();

    assert!(matches!(view1.read(&key("K")), ReadOutcome::Pending));

    for local in 0..4u32 {
        let outcome = if local == 3 {
            TransactionOutcome::Success(vec![write("K", Some(b"v1"))])
        } else {
            TransactionOutcome::Success(vec![])
        };
        for m in sender0.on_transaction_committed(local, &outcome) {
            assert_eq!(m.dest, 1);
            inbox1.push(CrossShardMsg::RemoteTxnWriteMsg(m.write));
        }
    }
    for local in 0..2u32 {
        let outcome = TransactionOutcome::Success(vec![write("K", Some(b"other"))]);
        assert!(sender1.on_transaction_committed(local, &outcome).is_empty());
    }
    inbox1.push(CrossShardMsg::StopMsg);
    inbox0.push(CrossShardMsg::StopMsg);

    let mut ended1 = false;
    for msg in inbox1 {
        match receiver1.handle_message(&mut view1, msg).unwrap() {
            ReceiverStep::Continue => {},
            ReceiverStep::Terminate => ended1 = true,
        }
    }
    let mut ended0 = false;
    for msg in inbox0 {
        match receiver0.handle_message(&mut view0, msg).unwrap() {
            ReceiverStep::Continue => {},
            ReceiverStep::Terminate => ended0 = true,
        }
    }
    assert!(ended0 && ended1);
    match view1.read(&key("K")) {
        ReadOutcome::Resolved(v) => assert_eq!(v, Some(b"v1".to_vec())),
        _ => panic!("K should be resolved"),
    }
}
