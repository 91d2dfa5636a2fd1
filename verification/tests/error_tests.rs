use pw_splitter::error::PwSplitterError;

#[test]
fn every_kind_has_a_stable_label() {
    let cases = vec![
        (PwSplitterError::CommandFailed("x".to_string()), "command failed"),
        (PwSplitterError::ParseError("x".to_string()), "parse error"),
        (PwSplitterError::NodeNotFound("x".to_string()), "node not found"),
        (PwSplitterError::NoActiveConnection, "no active connection"),
        (PwSplitterError::LoopbackSpawnFailed("x".to_string()), "loopback spawn failed"),
        (PwSplitterError::LinkCreationFailed("x".to_string()), "link creation failed"),
        (PwSplitterError::LinkDestroyFailed("x".to_string()), "link destroy failed"),
        (PwSplitterError::StateFileError("x".to_string()), "state file error"),
    ];
    for (err, label) in cases {
        assert_eq!(err.kind_name(), label);
    }
}
