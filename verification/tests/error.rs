use music_visualiser_core::MusicVizError;

#[test]
fn messages_render_with_their_prefixes() {
    assert_eq!(
        MusicVizError::Unimplemented("precomputed mode").message(),
        "feature not yet implemented: precomputed mode"
    );
    assert_eq!(MusicVizError::InvalidInput("empty block").message(), "invalid input: empty block");
    assert_eq!(MusicVizError::msg("custom".to_string()).message(), "custom");
}
