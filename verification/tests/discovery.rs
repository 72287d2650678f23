use spectrum_ares::backend::pipewire::discovery::{
    any_contains_ascii_ci, contains_ascii_ci, eq_ascii_ci, find_best_spotify_source,
    matches_spotify, select_best_spotify_source, spotify_candidates, DiscoveredSource,
    PipeWireDiscoveryError, SourceClassification,
};
use spectrum_ares::backend::pipewire::registry::resolve_spotify_links;

fn source(object_type: &str, id: u32) -> DiscoveredSource {
    DiscoveredSource {
        id,
        object_serial: Some(u64::from(id + 100)),
        object_type: object_type.to_string(),
        client_id: None,
        linked_client_id: None,
        linked_client_name: None,
        node_name: None,
        node_description: None,
        application_name: None,
        application_process_binary: None,
        client_name: None,
        media_name: None,
        media_class: None,
        media_role: None,
        media_category: None,
        media_type: None,
        target_object: None,
        node_target: None,
    }
}

fn resolve(mut sources: Vec<DiscoveredSource>) -> Vec<DiscoveredSource> {
    resolve_spotify_links(&mut sources);
    sources
}

fn stream(id: u32) -> DiscoveredSource {
    let mut stream = source("Node", id);
    stream.media_class = Some("Stream/Output/Audio".to_string());
    stream
}

#[test]
fn client_id_linking_selects_spotify_playback_node() {
    let mut spotify_client = source("Client", 135);
    spotify_client.application_name = Some("spotify".to_string());

    let mut playback_node = source("Node", 138);
    playback_node.client_id = Some(135);
    playback_node.node_name = Some("audio-src".to_string());
    playback_node.media_class = Some("Stream/Output/Audio".to_string());
    playback_node.media_category = Some("Playback".to_string());
    playback_node.media_role = Some("music".to_string());

    let sources = resolve(vec![spotify_client.clone(), playback_node.clone()]);
    let best = select_best_spotify_source(&sources).expect("expected Spotify candidate");

    assert_eq!(best.id, 138);
    assert_eq!(
        best.classification(),
        SourceClassification::LinkedSpotifyPlaybackNode
    );
    assert_eq!(best.linked_client_id, Some(135));
    assert!(best.is_capture_eligible());
}

#[test]
fn spotify_client_alone_is_not_capture_eligible() {
    let mut spotify_client = source("Client", 135);
    spotify_client.application_name = Some("Spotify".to_string());

    let sources = resolve(vec![spotify_client]);
    let candidate = select_best_spotify_source(&sources).expect("expected Spotify client");

    assert_eq!(candidate.classification(), SourceClassification::ClientOnly);
    assert!(!candidate.is_capture_eligible());
}

#[test]
fn generic_non_spotify_playback_node_is_not_selected() {
    let mut playback_node = source("Node", 201);
    playback_node.node_name = Some("audio-src".to_string());
    playback_node.media_class = Some("Stream/Output/Audio".to_string());
    playback_node.media_category = Some("Playback".to_string());
    playback_node.media_role = Some("music".to_string());

    let sources = resolve(vec![playback_node]);

    assert!(select_best_spotify_source(&sources).is_none());
}

#[test]
fn direct_spotify_named_playback_node_still_works() {
    let mut spotify_node = source("Node", 301);
    spotify_node.node_name = Some("Spotify".to_string());
    spotify_node.media_class = Some("Stream/Output/Audio".to_string());
    spotify_node.media_category = Some("Playback".to_string());
    spotify_node.media_role = Some("music".to_string());

    let sources = resolve(vec![spotify_node]);
    let best = select_best_spotify_source(&sources).expect("expected Spotify playback node");

    assert_eq!(best.id, 301);
    assert_eq!(best.classification(), SourceClassification::Stream);
    assert!(best.is_capture_eligible());
}

#[test]
fn linked_playback_node_scores_higher_than_client_only() {
    let mut spotify_client = source("Client", 135);
    spotify_client.application_name = Some("spotify".to_string());

    let mut playback_node = source("Node", 138);
    playback_node.client_id = Some(135);
    playback_node.node_name = Some("audio-src".to_string());
    playback_node.media_class = Some("Stream/Output/Audio".to_string());
    playback_node.media_category = Some("Playback".to_string());
    playback_node.media_role = Some("music".to_string());

    let sources = resolve(vec![spotify_client.clone(), playback_node.clone()]);
    let client = sources
        .iter()
        .find(|source| source.id == 135)
        .expect("Spotify client missing");
    let node = sources
        .iter()
        .find(|source| source.id == 138)
        .expect("Spotify playback node missing");

    assert!(node.spotify_candidate_score() > client.spotify_candidate_score());
}

#[test]
fn spotify_matching_stays_case_insensitive() {
    let mut spotify_client = source("Client", 135);
    spotify_client.application_name = Some("com.spotify.Client".to_string());

    assert!(spotify_client.is_direct_spotify_match());
}

#[test]
fn spotify_matching_does_not_trigger_on_unrelated_identifiers() {
    let mut helper_client = source("Client", 501);
    helper_client.application_name = Some("find_spotify_pipewire".to_string());

    assert!(!helper_client.is_direct_spotify_match());
}

#[test]
fn audio_relevance_requires_audio_metadata() {
    let mut audio_node = source("Node", 601);
    audio_node.media_class = Some("Stream/Output/Audio".to_string());

    let mut generic_named_node = source("Node", 602);
    generic_named_node.node_name = Some("kwin_wayland".to_string());
    generic_named_node.media_class = Some("Stream/Output/Video".to_string());

    assert!(audio_node.is_audio_relevant());
    assert!(!generic_named_node.is_audio_relevant());
}

#[test]
fn names_of_spotify() {
    for name in [
        "spotify",
        "SPOTIFY",
        "com.spotify.client",
        "spotify_player",
        "Spotifyd",
        "spotify-launcher",
        "my spotify",
        "org.Spotify",
        "spotify\u{e9}",
        "-spotify-",
    ] {
        assert!(matches_spotify(Some(name)), "{}", name);
    }
    for name in [
        "",
        "spotif",
        "spotifyd2",
        "spotify_players",
        "not_spotify",
        "spotify1",
        "spot ify",
    ] {
        assert!(!matches_spotify(Some(name)), "{}", name);
    }
    assert!(!matches_spotify(None));
}

#[test]
fn text_helpers() {
    assert!(contains_ascii_ci("Stream/Output/AUDIO", "output/audio"));
    assert!(!contains_ascii_ci("Stream", "streams"));
    assert!(contains_ascii_ci("anything", ""));
    assert!(any_contains_ascii_ci(
        [None, Some("x"), Some("my Audio")],
        "audio"
    ));
    assert!(!any_contains_ascii_ci([None, Some("x"), None], "audio"));
    assert!(eq_ascii_ci(Some("Music"), Some("mUSIC")));
    assert!(eq_ascii_ci(None, None));
    assert!(!eq_ascii_ci(None, Some("music")));
    assert!(!eq_ascii_ci(Some("music"), None));
}

#[test]
fn shown_names_go_by_precedence() {
    let mut shown = source("Node", 1);
    assert_eq!(shown.display_name(), "<unnamed>");
    shown.linked_client_name = Some("f".to_string());
    assert_eq!(shown.display_name(), "f");
    shown.client_name = Some("e".to_string());
    assert_eq!(shown.display_name(), "e");
    shown.application_name = Some("d".to_string());
    assert_eq!(shown.display_name(), "d");
    shown.media_name = Some("c".to_string());
    assert_eq!(shown.display_name(), "c");
    shown.node_description = Some("b".to_string());
    assert_eq!(shown.display_name(), "b");
    shown.node_name = Some("a".to_string());
    assert_eq!(shown.display_name(), "a");
}

#[test]
fn scores_add_up() {
    let mut linked = stream(10);
    linked.linked_client_id = Some(9);
    assert_eq!(linked.spotify_candidate_score(), 1000 + 40 + 5);
    linked.media_category = Some("PLAYBACK".to_string());
    linked.media_role = Some("Music".to_string());
    linked.node_target = Some("42".to_string());
    linked.node_name = Some("spotify".to_string());
    assert_eq!(linked.spotify_candidate_score(), 1190);

    let mut direct = stream(11);
    direct.object_serial = None;
    direct.media_name = Some("Spotify".to_string());
    assert_eq!(direct.spotify_candidate_score(), 850 + 80 + 40);

    let mut sink = source("Node", 12);
    sink.node_name = Some("spotify".to_string());
    sink.media_class = Some("Audio/Sink".to_string());
    assert_eq!(sink.spotify_candidate_score(), 700 + 80 + 5);
    assert_eq!(sink.classification(), SourceClassification::PlaybackNode);

    let mut client = source("Client", 13);
    client.application_name = Some("spotify".to_string());
    assert_eq!(client.spotify_candidate_score(), 250 + 80 + 5);

    let mut other = source("Node", 14);
    other.linked_client_id = Some(13);
    assert_eq!(other.spotify_candidate_score(), 200 + 5);
    assert_eq!(other.classification(), SourceClassification::Unknown);

    assert_eq!(stream(15).spotify_candidate_score(), 0);
}

#[test]
fn kinds_of_streams() {
    let mut endpoint = source("EndpointStream", 20);
    assert!(endpoint.is_stream_like());
    assert!(!endpoint.looks_like_audio_playback_stream());
    endpoint.media_type = Some("Audio".to_string());
    assert!(!endpoint.looks_like_audio_playback_stream());
    endpoint.media_category = Some("Playback".to_string());
    assert!(endpoint.looks_like_audio_playback_stream());
    assert!(!endpoint.is_spotify_related());

    let mut named = source("Node", 21);
    named.media_class = Some("stream/output/audio".to_string());
    assert!(!named.is_stream_like());
    assert!(named.looks_like_audio_playback_stream());

    let mut input = source("Node", 22);
    input.media_class = Some("Stream/Input/Audio".to_string());
    assert!(!input.looks_like_audio_playback_stream());
    assert!(!input.looks_like_playback_node());
}

#[test]
fn capturable_sources_come_first_among_the_candidates() {
    let mut plain = source("Node", 900);
    plain.node_name = Some("spotify".to_string());
    plain.media_class = Some("Audio/Sink".to_string());
    plain.media_category = Some("Playback".to_string());
    plain.media_role = Some("music".to_string());
    plain.target_object = Some("1".to_string());
    let mut playing = stream(2);
    playing.object_serial = None;
    playing.linked_client_id = Some(900);

    assert!(!plain.is_capture_eligible());
    assert!(playing.spotify_candidate_score() > plain.spotify_candidate_score());
    let best = select_best_spotify_source(&[playing, plain]).unwrap();
    assert_eq!(best.id, 2);
}

#[test]
fn of_equal_scores_the_highest_id_wins_and_then_the_last() {
    let mut first = stream(7);
    first.linked_client_id = Some(1);
    let mut second = first.clone();
    second.id = 8;
    let mut third = first.clone();
    third.node_description = Some("third".to_string());

    let best = select_best_spotify_source(&[first.clone(), second.clone(), third.clone()]);
    assert_eq!(best, Some(second));
    let best = select_best_spotify_source(&[third.clone(), first.clone()]);
    assert_eq!(best, Some(first.clone()));
    let best = select_best_spotify_source(&[first, third.clone()]);
    assert_eq!(best, Some(third));
    assert_eq!(select_best_spotify_source(&[]), None);
}

#[test]
fn reasons_tell_whether_a_source_can_be_captured() {
    let mut linked = stream(10);
    linked.linked_client_id = Some(9);
    assert_eq!(
        linked.capture_eligibility_reason(),
        "capture-eligible: audio playback stream linked to Spotify client 9 (<unknown client>) via client.id"
    );
    linked.linked_client_name = Some("spotify".to_string());
    assert_eq!(
        linked.capture_eligibility_reason(),
        "capture-eligible: audio playback stream linked to Spotify client 9 (spotify) via client.id"
    );

    let mut direct = stream(11);
    direct.node_name = Some("spotify".to_string());
    direct.application_name = Some("Spotify".to_string());
    assert_eq!(
        direct.capture_eligibility_reason(),
        "capture-eligible: audio playback stream directly matches Spotify metadata on application.name, node.name"
    );

    let mut client = source("Client", 12);
    client.application_process_binary = Some("spotify".to_string());
    assert_eq!(
        client.capture_eligibility_reason(),
        "not capture-eligible: Spotify client was found, but no linked playback stream/node was discovered"
    );
    assert_eq!(
        source("Node", 13).capture_eligibility_reason(),
        "not capture-eligible: object is not an audio playback stream/node"
    );
    assert_eq!(
        stream(14).capture_eligibility_reason(),
        "not capture-eligible: playback stream is not linked to a Spotify client and has no Spotify-identifying metadata"
    );
}

#[test]
fn selections_are_explained() {
    assert_eq!(
        source("Node", 1).selection_reason(),
        "score 0: no Spotify-specific indicators were found"
    );

    let mut linked = stream(10);
    linked.linked_client_id = Some(9);
    linked.linked_client_name = Some("spotify".to_string());
    linked.media_name = Some("Spotify".to_string());
    linked.media_category = Some("playback".to_string());
    linked.media_role = Some("MUSIC".to_string());
    linked.target_object = Some("77".to_string());
    linked.node_target = Some("sink".to_string());
    assert_eq!(
        linked.selection_reason(),
        "score 1190: linked to Spotify client 9 (spotify) via client.id; direct Spotify metadata match on media.name; looks like an audio playback stream/node; media.category=Playback; media.role=music; target.object=77; node.target=sink"
    );

    let mut sink = source("Node", 12);
    sink.node_description = Some("spotify".to_string());
    sink.media_class = Some("Audio/Sink".to_string());
    assert_eq!(
        sink.selection_reason(),
        "score 785: direct Spotify metadata match on node.description; looks like an audio playback node but not a stream"
    );
}

#[test]
fn every_matching_property_is_named() {
    let mut all = source("Node", 1);
    all.application_name = Some("spotify".to_string());
    all.application_process_binary = Some("spotify".to_string());
    all.client_name = Some("spotify".to_string());
    all.media_name = Some("spotify".to_string());
    all.node_name = Some("spotify".to_string());
    all.node_description = Some("spotify".to_string());
    assert_eq!(
        all.direct_match_fields(),
        vec![
            "application.name",
            "application.process.binary",
            "client.name",
            "media.name",
            "node.name",
            "node.description"
        ]
    );
    assert!(source("Node", 1).direct_match_fields().is_empty());
}

#[test]
fn candidates_are_those_related_to_spotify() {
    let mut linked = source("Node", 3);
    linked.linked_client_id = Some(2);
    let mut client = source("Client", 2);
    client.client_name = Some("spotify".to_string());
    let found = spotify_candidates(Ok(vec![
        linked.clone(),
        stream(4),
        client.clone(),
    ]))
    .unwrap();
    assert_eq!(found, vec![linked.clone(), client.clone()]);

    let best = find_best_spotify_source(Ok(vec![linked, client.clone()])).unwrap();
    assert_eq!(best, Some(client));
    assert_eq!(find_best_spotify_source(Ok(vec![stream(4)])).unwrap(), None);

    let error = PipeWireDiscoveryError::PipeWire("connect to core: refused".to_string());
    let error = spotify_candidates(Err(error)).unwrap_err();
    let error = find_best_spotify_source(Err(error)).unwrap_err();
    assert_eq!(error.message(), "connect to core: refused");
}

#[test]
fn classifications_have_names() {
    assert_eq!(SourceClassification::ClientOnly.as_str(), "ClientOnly");
    assert_eq!(SourceClassification::PlaybackNode.as_str(), "PlaybackNode");
    assert_eq!(SourceClassification::Stream.as_str(), "Stream");
    assert_eq!(
        SourceClassification::LinkedSpotifyPlaybackNode.as_str(),
        "LinkedSpotifyPlaybackNode"
    );
    assert_eq!(SourceClassification::Unknown.as_str(), "Unknown");
}
