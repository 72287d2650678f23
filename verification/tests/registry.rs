use spectrum_ares::backend::pipewire::discovery::DiscoveredSource;
use spectrum_ares::backend::pipewire::registry::{
    assemble_sources, is_relevant_object_type, object_type_name, resolve_spotify_links,
    should_keep_source, sort_sources, source_from_global, ObjectType, Property, RegistryGlobal,
};
use spectrum_ares::backend::pipewire::{classify_discovered_sources, DiscoveryOutcome};

fn global(id: u32, object_type: ObjectType, props: &[(&str, &str)]) -> RegistryGlobal {
    RegistryGlobal {
        id,
        object_type,
        props: Some(
            props
                .iter()
                .map(|(key, value)| Property {
                    key: key.to_string(),
                    value: value.to_string(),
                })
                .collect(),
        ),
    }
}

fn plain(id: u32, object_type: &str) -> DiscoveredSource {
    let mut source = source_from_global(&global(id, ObjectType::Client, &[])).unwrap();
    source.object_type = object_type.to_string();
    source
}

#[test]
fn properties_are_read_from_an_announced_object() {
    let source = source_from_global(&global(
        138,
        ObjectType::Node,
        &[
            ("object.serial", "312"),
            ("client.id", "+135"),
            ("node.name", "audio-src"),
            ("node.description", "   "),
            ("application.name", "app"),
            ("application.process.binary", "bin"),
            ("media.name", "song"),
            ("media.class", "Stream/Output/Audio"),
            ("media.role", "Music"),
            ("media.category", "Playback"),
            ("media.type", "Audio"),
            ("target.object", "\u{a0}\t"),
            ("target.node", "55"),
            ("node.target", "66"),
        ],
    ))
    .unwrap();

    assert_eq!(source.id, 138);
    assert_eq!(source.object_serial, Some(312));
    assert_eq!(source.object_type, "Node");
    assert_eq!(source.client_id, Some(135));
    assert_eq!(source.linked_client_id, None);
    assert_eq!(source.linked_client_name, None);
    assert_eq!(source.node_name.as_deref(), Some("audio-src"));
    assert_eq!(source.node_description, None);
    assert_eq!(source.application_name.as_deref(), Some("app"));
    assert_eq!(source.application_process_binary.as_deref(), Some("bin"));
    assert_eq!(source.client_name.as_deref(), Some("app"));
    assert_eq!(source.media_name.as_deref(), Some("song"));
    assert_eq!(source.media_class.as_deref(), Some("Stream/Output/Audio"));
    assert_eq!(source.media_role.as_deref(), Some("Music"));
    assert_eq!(source.media_category.as_deref(), Some("Playback"));
    assert_eq!(source.media_type.as_deref(), Some("Audio"));
    assert_eq!(source.target_object.as_deref(), Some("55"));
    assert_eq!(source.node_target.as_deref(), Some("66"));
}

#[test]
fn the_first_of_several_properties_with_one_key_counts() {
    let found = global(
        1,
        ObjectType::Node,
        &[("a", ""), ("a", "second"), ("b", "x"), ("n", "7 "), ("m", "4294967296")],
    );
    assert_eq!(found.property("a"), None);
    assert_eq!(found.property("b").as_deref(), Some("x"));
    assert_eq!(found.property("c"), None);
    assert_eq!(found.first_property("a", "b").as_deref(), Some("x"));
    assert_eq!(found.first_property("b", "a").as_deref(), Some("x"));
    assert_eq!(found.first_property("c", "a"), None);
    assert_eq!(found.property_u64("n"), None);
    assert_eq!(found.property_u64("m"), Some(4294967296));
    assert_eq!(found.property_u32("m"), None);
    assert_eq!(found.property_u32("b"), None);

    let bare = RegistryGlobal { id: 1, object_type: ObjectType::Node, props: None };
    assert_eq!(bare.property("a"), None);
    assert_eq!(bare.property_u64("a"), None);
}

#[test]
fn only_some_objects_are_sources() {
    let client = RegistryGlobal { id: 5, object_type: ObjectType::Client, props: None };
    assert!(source_from_global(&client).is_some());
    let node = RegistryGlobal { id: 5, object_type: ObjectType::Node, props: None };
    assert!(source_from_global(&node).is_none());
    let module = global(
        6,
        ObjectType::Other("PipeWire:Interface:Module".to_string()),
        &[("media.class", "Audio"), ("application.name", "spotify")],
    );
    assert!(source_from_global(&module).is_none());

    for (key, value) in [
        ("media.class", "Audio/Sink"),
        ("node.name", "spotify"),
        ("client.id", "1"),
        ("target.node", "x"),
        ("node.target", "x"),
    ] {
        let found = global(7, ObjectType::ClientSession, &[(key, value)]);
        assert!(source_from_global(&found).is_some(), "{}", key);
    }
    assert!(!should_keep_source(&plain(8, "Node")));
    assert!(should_keep_source(&plain(8, "Client")));
}

#[test]
fn object_types_have_names() {
    for (object_type, name) in [
        (ObjectType::Node, "Node"),
        (ObjectType::Client, "Client"),
        (ObjectType::ClientNode, "ClientNode"),
        (ObjectType::ClientSession, "ClientSession"),
        (ObjectType::EndpointStream, "EndpointStream"),
    ] {
        assert_eq!(object_type_name(&object_type), name);
        assert!(is_relevant_object_type(&object_type));
    }
    let other = ObjectType::Other("PipeWire:Interface:Port".to_string());
    assert_eq!(object_type_name(&other), "PipeWire:Interface:Port");
    assert!(!is_relevant_object_type(&other));
}

#[test]
fn links_go_by_client_id() {
    let mut client = plain(135, "Client");
    client.application_name = Some("Spotify".to_string());
    let mut twin = client.clone();
    twin.node_name = Some("spotify twin".to_string());
    let mut other = plain(136, "Client");
    other.application_name = Some("firefox".to_string());
    let mut node = plain(138, "Node");
    node.client_id = Some(135);
    let mut unrelated = plain(139, "Node");
    unrelated.client_id = Some(136);
    unrelated.linked_client_id = Some(1);

    let mut sources = vec![client.clone(), node, unrelated.clone(), other.clone(), twin.clone()];
    resolve_spotify_links(&mut sources);
    assert_eq!(sources[0], client);
    assert_eq!(sources[1].linked_client_id, Some(135));
    assert_eq!(sources[1].linked_client_name.as_deref(), Some("spotify twin"));
    assert_eq!(sources[2], unrelated);
    assert_eq!(sources[3], other);
    assert_eq!(sources[4], twin);

    let once = sources.clone();
    resolve_spotify_links(&mut sources);
    assert_eq!(sources, once);
}

#[test]
fn linking_again_can_show_another_name_but_no_other_client() {
    let mut unnamed = plain(1, "Client");
    unnamed.application_process_binary = Some("spotify".to_string());
    unnamed.client_id = Some(2);
    let mut named = plain(2, "Client");
    named.application_name = Some("spotify".to_string());
    let mut node = plain(3, "Node");
    node.client_id = Some(1);

    let mut sources = vec![unnamed, named, node];
    resolve_spotify_links(&mut sources);
    assert_eq!(sources[2].linked_client_id, Some(1));
    assert_eq!(sources[2].linked_client_name.as_deref(), Some("<unnamed>"));
    resolve_spotify_links(&mut sources);
    assert_eq!(sources[2].linked_client_id, Some(1));
    assert_eq!(sources[2].linked_client_name.as_deref(), Some("spotify"));
}

#[test]
fn sources_are_sorted_by_type_and_id() {
    let mut marked = plain(3, "Node");
    marked.node_name = Some("marked".to_string());
    let sources = vec![
        plain(3, "Node"),
        plain(9, "Client"),
        plain(2, "Node"),
        plain(1, "ClientNode"),
        marked.clone(),
        plain(4, "Client"),
    ];
    assert_eq!(
        sort_sources(sources),
        vec![
            plain(4, "Client"),
            plain(9, "Client"),
            plain(1, "ClientNode"),
            plain(2, "Node"),
            plain(3, "Node"),
            marked,
        ]
    );
    assert_eq!(sort_sources(Vec::new()), Vec::new());
}

#[test]
fn a_generic_stream_of_a_spotify_client_is_captured() {
    let globals = vec![
        global(
            138,
            ObjectType::Node,
            &[
                ("object.serial", "312"),
                ("client.id", "135"),
                ("node.name", "audio-src"),
                ("media.class", "Stream/Output/Audio"),
            ],
        ),
        global(50, ObjectType::Other("x".to_string()), &[]),
        global(135, ObjectType::Client, &[("application.name", "spotify")]),
        global(140, ObjectType::Node, &[("media.class", "Stream/Output/Audio")]),
    ];
    let sources = assemble_sources(&globals);
    let ids: Vec<u32> = sources.iter().map(|source| source.id).collect();
    assert_eq!(ids, vec![135, 138, 140]);
    assert_eq!(sources[1].linked_client_id, Some(135));

    match classify_discovered_sources(&sources) {
        DiscoveryOutcome::Ready { source, target } => {
            assert_eq!(source.id, 138);
            assert_eq!(target.object_serial, Some(312));
        }
        DiscoveryOutcome::Waiting { reason } => panic!("{}", reason),
    }
}
