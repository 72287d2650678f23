//! Which PipeWire objects belong to Spotify, and which of them can be captured.

use crate::text;
use vstd::prelude::*;

verus! {

/// What kind of object a discovered source is.
#[derive(Debug, Clone, Copy, PartialEq, Eq, Structural)]
pub enum SourceClassification {
    ClientOnly,
    PlaybackNode,
    Stream,
    LinkedSpotifyPlaybackNode,
    Unknown,
}

impl SourceClassification {
    /// The name of the classification.
    pub open spec fn name(self) -> Seq<char> {
        match self {
            SourceClassification::ClientOnly => "ClientOnly"@,
            SourceClassification::PlaybackNode => "PlaybackNode"@,
            SourceClassification::Stream => "Stream"@,
            SourceClassification::LinkedSpotifyPlaybackNode => "LinkedSpotifyPlaybackNode"@,
            SourceClassification::Unknown => "Unknown"@,
        }
    }

    /// The name of the classification.
    pub fn as_str(self) -> (r: &'static str)
        ensures
            r@ == self.name(),
    {
        match self {
            SourceClassification::ClientOnly => "ClientOnly",
            SourceClassification::PlaybackNode => "PlaybackNode",
            SourceClassification::Stream => "Stream",
            SourceClassification::LinkedSpotifyPlaybackNode => "LinkedSpotifyPlaybackNode",
            SourceClassification::Unknown => "Unknown",
        }
    }
}

/// A PipeWire object with the properties that tell whether it plays Spotify audio.
#[derive(Debug, PartialEq, Eq)]
pub struct DiscoveredSource {
    pub id: u32,
    pub object_serial: Option<u64>,
    pub object_type: String,
    pub client_id: Option<u32>,
    pub linked_client_id: Option<u32>,
    pub linked_client_name: Option<String>,
    pub node_name: Option<String>,
    pub node_description: Option<String>,
    pub application_name: Option<String>,
    pub application_process_binary: Option<String>,
    pub client_name: Option<String>,
    pub media_name: Option<String>,
    pub media_class: Option<String>,
    pub media_role: Option<String>,
    pub media_category: Option<String>,
    pub media_type: Option<String>,
    pub target_object: Option<String>,
    pub node_target: Option<String>,
}

/// A copy of an optional text.
pub(crate) fn copy_text(value: &Option<String>) -> (r: Option<String>)
    ensures
        r == *value,
{
    match value {
        Some(held) => Some(held.clone()),
        None => None,
    }
}

impl Clone for DiscoveredSource {
    fn clone(&self) -> (r: Self)
        ensures
            r == *self,
    {
        DiscoveredSource {
            id: self.id,
            object_serial: self.object_serial,
            object_type: self.object_type.clone(),
            client_id: self.client_id,
            linked_client_id: self.linked_client_id,
            linked_client_name: copy_text(&self.linked_client_name),
            node_name: copy_text(&self.node_name),
            node_description: copy_text(&self.node_description),
            application_name: copy_text(&self.application_name),
            application_process_binary: copy_text(&self.application_process_binary),
            client_name: copy_text(&self.client_name),
            media_name: copy_text(&self.media_name),
            media_class: copy_text(&self.media_class),
            media_role: copy_text(&self.media_role),
            media_category: copy_text(&self.media_category),
            media_type: copy_text(&self.media_type),
            target_object: copy_text(&self.target_object),
            node_target: copy_text(&self.node_target),
        }
    }
}

/// The text that an optional string holds.
pub open spec fn text_of(value: Option<String>) -> Option<Seq<char>> {
    match value {
        Some(held) => Some(held@),
        None => None,
    }
}

/// What contracts say of a discovered source: the values of its properties, text as sequences of
/// characters.
#[verifier::ext_equal]
pub struct SourceModel {
    pub id: u32,
    pub object_serial: Option<u64>,
    pub object_type: Seq<char>,
    pub client_id: Option<u32>,
    pub linked_client_id: Option<u32>,
    pub linked_client_name: Option<Seq<char>>,
    pub node_name: Option<Seq<char>>,
    pub node_description: Option<Seq<char>>,
    pub application_name: Option<Seq<char>>,
    pub application_process_binary: Option<Seq<char>>,
    pub client_name: Option<Seq<char>>,
    pub media_name: Option<Seq<char>>,
    pub media_class: Option<Seq<char>>,
    pub media_role: Option<Seq<char>>,
    pub media_category: Option<Seq<char>>,
    pub media_type: Option<Seq<char>>,
    pub target_object: Option<Seq<char>>,
    pub node_target: Option<Seq<char>>,
}

impl View for DiscoveredSource {
    type V = SourceModel;

    open spec fn view(&self) -> SourceModel {
        SourceModel {
            id: self.id,
            object_serial: self.object_serial,
            object_type: self.object_type@,
            client_id: self.client_id,
            linked_client_id: self.linked_client_id,
            linked_client_name: text_of(self.linked_client_name),
            node_name: text_of(self.node_name),
            node_description: text_of(self.node_description),
            application_name: text_of(self.application_name),
            application_process_binary: text_of(self.application_process_binary),
            client_name: text_of(self.client_name),
            media_name: text_of(self.media_name),
            media_class: text_of(self.media_class),
            media_role: text_of(self.media_role),
            media_category: text_of(self.media_category),
            media_type: text_of(self.media_type),
            target_object: text_of(self.target_object),
            node_target: text_of(self.node_target),
        }
    }
}

/// A text names Spotify: it is one of the known identifiers, or one of its tokens is `spotify`.
/// ASCII case does not matter.
pub open spec fn names_spotify(s: Seq<char>) -> bool {
    ||| text::lower(s) == "spotify"@
    ||| text::lower(s) == "com.spotify.client"@
    ||| text::lower(s) == "spotify_player"@
    ||| text::lower(s) == "spotifyd"@
    ||| text::lower(s) == "spotify-launcher"@
    ||| text::has_token(text::lower(s), "spotify"@)
}

/// The property is set and names Spotify.
pub open spec fn spotify_named(value: Option<Seq<char>>) -> bool {
    value is Some && names_spotify(value->0)
}

/// The property is set and holds `needle`, whatever its ASCII case.
pub open spec fn holds_ci(value: Option<Seq<char>>, needle: Seq<char>) -> bool {
    value is Some && text::contains_ci(value->0, needle)
}

/// The property is set and equals `expected`, whatever its ASCII case.
pub open spec fn equals_ci(value: Option<Seq<char>>, expected: Seq<char>) -> bool {
    value is Some && text::equal_ci(value->0, expected)
}

/// A list of one text when the condition holds, else an empty list.
pub open spec fn when(condition: bool, item: Seq<char>) -> Seq<Seq<char>> {
    if condition {
        seq![item]
    } else {
        Seq::empty()
    }
}

impl SourceModel {
    /// The name by which the source is shown: the first of its names that is set.
    pub open spec fn shown_name(self) -> Seq<char> {
        if self.node_name is Some {
            self.node_name->0
        } else if self.node_description is Some {
            self.node_description->0
        } else if self.media_name is Some {
            self.media_name->0
        } else if self.application_name is Some {
            self.application_name->0
        } else if self.client_name is Some {
            self.client_name->0
        } else if self.linked_client_name is Some {
            self.linked_client_name->0
        } else {
            "<unnamed>"@
        }
    }

    /// Some property says that the source has to do with audio.
    pub open spec fn audio_relevant(self) -> bool {
        ||| holds_ci(self.media_class, "audio"@)
        ||| equals_ci(self.media_type, "audio"@)
        ||| holds_ci(self.media_name, "audio"@)
        ||| holds_ci(self.node_description, "audio"@)
        ||| holds_ci(self.node_name, "audio"@)
    }

    /// One of the source's own names is a Spotify name.
    pub open spec fn direct_match(self) -> bool {
        ||| spotify_named(self.application_name)
        ||| spotify_named(self.application_process_binary)
        ||| spotify_named(self.client_name)
        ||| spotify_named(self.media_name)
        ||| spotify_named(self.node_name)
        ||| spotify_named(self.node_description)
    }

    /// The source belongs to a Spotify client.
    pub open spec fn linked(self) -> bool {
        self.linked_client_id is Some
    }

    /// The source has to do with Spotify, by its own names or through its client.
    pub open spec fn spotify_related(self) -> bool {
        self.direct_match() || self.linked()
    }

    /// The source is a stream.
    pub open spec fn stream_like(self) -> bool {
        ||| self.media_class is Some && text::begins_with(self.media_class->0, "Stream/"@)
        ||| self.object_type == "EndpointStream"@
    }

    /// The source is a stream that plays audio.
    pub open spec fn playback_stream(self) -> bool {
        &&& self.audio_relevant()
        &&& {
            ||| holds_ci(self.media_class, "stream/output/audio"@)
            ||| self.media_class is Some && text::begins_with(self.media_class->0, "Stream/"@)
                && text::contains_ci(self.media_class->0, "output"@)
            ||| self.stream_like() && equals_ci(self.media_category, "playback"@)
        }
    }

    /// The source plays audio, as a stream or otherwise.
    pub open spec fn playback_node(self) -> bool {
        ||| self.playback_stream()
        ||| self.audio_relevant() && (holds_ci(self.media_class, "audio/sink"@) || equals_ci(
            self.media_category,
            "playback"@,
        ))
    }

    /// The source can be captured: it plays audio as a stream, and it has to do with Spotify.
    pub open spec fn eligible(self) -> bool {
        self.playback_stream() && self.spotify_related()
    }

    /// The source is a client that names Spotify.
    pub open spec fn spotify_client(self) -> bool {
        self.object_type == "Client"@ && self.direct_match()
    }

    /// What kind of object the source is.
    pub open spec fn class(self) -> SourceClassification {
        if self.linked() && self.playback_stream() {
            SourceClassification::LinkedSpotifyPlaybackNode
        } else if self.spotify_client() {
            SourceClassification::ClientOnly
        } else if self.playback_stream() {
            SourceClassification::Stream
        } else if self.playback_node() {
            SourceClassification::PlaybackNode
        } else {
            SourceClassification::Unknown
        }
    }

    /// The part of the score that the kind of the source gives.
    pub open spec fn base_score(self) -> int {
        if self.linked() && self.playback_stream() {
            1000
        } else if self.direct_match() && self.playback_stream() {
            850
        } else if self.direct_match() && self.playback_node() {
            700
        } else if self.spotify_client() {
            250
        } else if self.linked() {
            200
        } else {
            0
        }
    }

    /// The part of the score that single properties give.
    pub open spec fn bonus_score(self) -> int {
        (if self.direct_match() { 80int } else { 0 })
            + (if self.stream_like() { 40int } else { 0 })
            + (if equals_ci(self.media_category, "playback"@) { 30int } else { 0 })
            + (if equals_ci(self.media_role, "music"@) { 25int } else { 0 })
            + (if self.target_object is Some || self.node_target is Some { 10int } else { 0 })
            + (if self.object_serial is Some { 5int } else { 0 })
    }

    /// How good a Spotify capture candidate the source is; zero for one unrelated to Spotify.
    pub open spec fn score(self) -> int {
        if self.spotify_related() {
            self.base_score() + self.bonus_score()
        } else {
            0
        }
    }

    /// The names of the properties that name Spotify.
    pub open spec fn match_fields(self) -> Seq<Seq<char>> {
        when(spotify_named(self.application_name), "application.name"@)
            + when(spotify_named(self.application_process_binary), "application.process.binary"@)
            + when(spotify_named(self.client_name), "client.name"@)
            + when(spotify_named(self.media_name), "media.name"@)
            + when(spotify_named(self.node_name), "node.name"@)
            + when(spotify_named(self.node_description), "node.description"@)
    }

    /// The linked client in words: its identifier, its name and how it was found.
    pub open spec fn link_text(self, lead: Seq<char>) -> Seq<char> {
        lead + text::decimal(self.linked_client_id->0 as nat) + " ("@ + (
        if self.linked_client_name is Some {
            self.linked_client_name->0
        } else {
            "<unknown client>"@
        }) + ") via client.id"@
    }

    /// Why the source can or cannot be captured.
    pub open spec fn eligibility_text(self) -> Seq<char> {
        if self.linked() && self.playback_stream() {
            self.link_text("capture-eligible: audio playback stream linked to Spotify client "@)
        } else if self.direct_match() && self.playback_stream() {
            "capture-eligible: audio playback stream directly matches Spotify metadata on "@ + text::join(
                self.match_fields(),
                ", "@,
            )
        } else if self.spotify_client() {
            "not capture-eligible: Spotify client was found, but no linked playback stream/node was discovered"@
        } else if !self.playback_stream() {
            "not capture-eligible: object is not an audio playback stream/node"@
        } else {
            "not capture-eligible: playback stream is not linked to a Spotify client and has no Spotify-identifying metadata"@
        }
    }

    /// How the source is tied to Spotify.
    pub open spec fn identity_indicators(self) -> Seq<Seq<char>> {
        when(self.linked(), self.link_text("linked to Spotify client "@)) + when(
            self.direct_match(),
            "direct Spotify metadata match on "@ + text::join(self.match_fields(), ", "@),
        )
    }

    /// How the source plays.
    pub open spec fn playback_indicators(self) -> Seq<Seq<char>> {
        when(self.playback_stream(), "looks like an audio playback stream/node"@)
            + when(
                !self.playback_stream() && self.playback_node(),
                "looks like an audio playback node but not a stream"@,
            )
            + when(equals_ci(self.media_category, "playback"@), "media.category=Playback"@)
            + when(equals_ci(self.media_role, "music"@), "media.role=music"@)
    }

    /// What the source is connected to.
    pub open spec fn target_indicators(self) -> Seq<Seq<char>> {
        when(self.target_object is Some, "target.object="@ + self.target_object->0) + when(
            self.node_target is Some,
            "node.target="@ + self.node_target->0,
        )
    }

    /// The single reasons behind the score of the source, in order.
    pub open spec fn indicators(self) -> Seq<Seq<char>> {
        self.identity_indicators() + self.playback_indicators() + self.target_indicators()
    }

    /// The score and the reasons behind it in words.
    pub open spec fn selection_text(self) -> Seq<char> {
        let reasons = if self.indicators().len() == 0 {
            seq!["no Spotify-specific indicators were found"@]
        } else {
            self.indicators()
        };
        "score "@ + text::decimal(self.score() as nat) + ": "@ + text::join(reasons, "; "@)
    }
}

/// The text of a property that is set.
fn as_text(value: &Option<String>) -> (r: Option<&str>)
    ensures
        match r {
            Some(held) => text_of(*value) == Some(held@),
            None => text_of(*value) is None,
        },
{
    match value {
        Some(held) => Some(held.as_str()),
        None => None,
    }
}

/// Whether the text holds `needle`, whatever their ASCII case.
pub fn contains_ascii_ci(value: &str, needle: &str) -> (r: bool)
    ensures
        r == text::contains_ci(value@, needle@),
{
    text::contains_chars(&text::lowered_chars(value), &text::lowered_chars(needle))
}

/// Whether one of the texts that are there holds `needle`, whatever their ASCII case.
pub fn any_contains_ascii_ci(values: [Option<&str>; 3], needle: &str) -> (r: bool)
    ensures
        r == exists|i: int|
            0 <= i < 3 && (#[trigger] values@[i]) is Some && text::contains_ci(
                values@[i]->0@,
                needle@,
            ),
{
    for i in 0..3
        invariant
            forall|k: int|
                0 <= k < i ==> !((#[trigger] values@[k]) is Some && text::contains_ci(
                    values@[k]->0@,
                    needle@,
                )),
    {
        if let Some(value) = values[i] {
            if contains_ascii_ci(value, needle) {
                assert(values@[i as int] is Some);
                return true;
            }
        }
    }
    false
}

/// Whether both texts are there and equal whatever their ASCII case, or neither is there.
pub fn eq_ascii_ci(value: Option<&str>, expected: Option<&str>) -> (r: bool)
    ensures
        r == match (value, expected) {
            (Some(value), Some(expected)) => text::equal_ci(value@, expected@),
            (None, None) => true,
            _ => false,
        },
{
    match (value, expected) {
        (Some(value), Some(expected)) => text::equal_text_ci(value, expected),
        (None, None) => true,
        _ => false,
    }
}

/// Whether the text is there and names Spotify.
pub fn matches_spotify(value: Option<&str>) -> (r: bool)
    ensures
        r == (value is Some && names_spotify(value->0@)),
{
    match value {
        None => false,
        Some(value) => {
            let lowered: Vec<char> = text::lowered_chars(value);
            text::same_chars(&lowered, &text::chars_of("spotify")) || text::same_chars(
                &lowered,
                &text::chars_of("com.spotify.client"),
            ) || text::same_chars(&lowered, &text::chars_of("spotify_player")) || text::same_chars(
                &lowered,
                &text::chars_of("spotifyd"),
            ) || text::same_chars(&lowered, &text::chars_of("spotify-launcher"))
                || text::token_in_chars(&lowered, "spotify")
        },
    }
}

/// Appends one text to a list.
fn push_text(list: &mut Vec<String>, item: String)
    ensures
        text::views(final(list)@) == text::views(old(list)@).push(item@),
{
    list.push(item);
    assert(text::views(list@) =~= text::views(old(list)@).push(item@));
}

impl DiscoveredSource {
    /// The name by which the source is shown.
    pub fn display_name(&self) -> (r: &str)
        ensures
            r@ == self@.shown_name(),
    {
        if let Some(name) = &self.node_name {
            name.as_str()
        } else if let Some(name) = &self.node_description {
            name.as_str()
        } else if let Some(name) = &self.media_name {
            name.as_str()
        } else if let Some(name) = &self.application_name {
            name.as_str()
        } else if let Some(name) = &self.client_name {
            name.as_str()
        } else if let Some(name) = &self.linked_client_name {
            name.as_str()
        } else {
            "<unnamed>"
        }
    }

    /// Whether some property says that the source has to do with audio.
    pub fn is_audio_relevant(&self) -> (r: bool)
        ensures
            r == self@.audio_relevant(),
    {
        if let Some(media_class) = &self.media_class {
            if contains_ascii_ci(media_class.as_str(), "audio") {
                return true;
            }
        }
        if eq_ascii_ci(as_text(&self.media_type), Some("audio")) {
            return true;
        }
        let names: [Option<&str>; 3] = [
            as_text(&self.media_name),
            as_text(&self.node_description),
            as_text(&self.node_name),
        ];
        proof {
            assert(names@[0] is Some <==> self.media_name is Some);
            assert(names@[1] is Some <==> self.node_description is Some);
            assert(names@[2] is Some <==> self.node_name is Some);
        }
        any_contains_ascii_ci(names, "audio")
    }

    /// Whether one of the source's own names is a Spotify name.
    pub fn is_direct_spotify_match(&self) -> (r: bool)
        ensures
            r == self@.direct_match(),
    {
        matches_spotify(as_text(&self.application_name)) || matches_spotify(
            as_text(&self.application_process_binary),
        ) || matches_spotify(as_text(&self.client_name)) || matches_spotify(
            as_text(&self.media_name),
        ) || matches_spotify(as_text(&self.node_name)) || matches_spotify(
            as_text(&self.node_description),
        )
    }

    /// Whether the source belongs to a Spotify client.
    pub fn is_linked_to_spotify_client(&self) -> (r: bool)
        ensures
            r == self@.linked(),
    {
        self.linked_client_id.is_some()
    }

    /// Whether the source has to do with Spotify.
    pub fn is_spotify_related(&self) -> (r: bool)
        ensures
            r == self@.spotify_related(),
    {
        self.is_direct_spotify_match() || self.is_linked_to_spotify_client()
    }

    /// Whether the source is a stream.
    pub fn is_stream_like(&self) -> (r: bool)
        ensures
            r == self@.stream_like(),
    {
        if let Some(media_class) = &self.media_class {
            if text::starts_with_text(media_class.as_str(), "Stream/") {
                return true;
            }
        }
        text::equal_text(self.object_type.as_str(), "EndpointStream")
    }

    /// Whether the source is a stream that plays audio.
    pub fn looks_like_audio_playback_stream(&self) -> (r: bool)
        ensures
            r == self@.playback_stream(),
    {
        if !self.is_audio_relevant() {
            return false;
        }
        if let Some(media_class) = &self.media_class {
            if contains_ascii_ci(media_class.as_str(), "stream/output/audio") {
                return true;
            }
            if text::starts_with_text(media_class.as_str(), "Stream/") && contains_ascii_ci(
                media_class.as_str(),
                "output",
            ) {
                return true;
            }
        }
        self.is_stream_like() && eq_ascii_ci(as_text(&self.media_category), Some("playback"))
    }

    /// Whether the source plays audio.
    pub fn looks_like_playback_node(&self) -> (r: bool)
        ensures
            r == self@.playback_node(),
    {
        if self.looks_like_audio_playback_stream() {
            return true;
        }
        if !self.is_audio_relevant() {
            return false;
        }
        if let Some(media_class) = &self.media_class {
            if contains_ascii_ci(media_class.as_str(), "audio/sink") {
                return true;
            }
        }
        eq_ascii_ci(as_text(&self.media_category), Some("playback"))
    }

    /// Whether the source is a client.
    fn is_client(&self) -> (r: bool)
        ensures
            r == (self@.object_type == "Client"@),
    {
        text::equal_text(self.object_type.as_str(), "Client")
    }

    /// What kind of object the source is.
    pub fn classification(&self) -> (r: SourceClassification)
        ensures
            r == self@.class(),
    {
        if self.is_linked_to_spotify_client() && self.looks_like_audio_playback_stream() {
            SourceClassification::LinkedSpotifyPlaybackNode
        } else if self.is_client() && self.is_direct_spotify_match() {
            SourceClassification::ClientOnly
        } else if self.looks_like_audio_playback_stream() {
            SourceClassification::Stream
        } else if self.looks_like_playback_node() {
            SourceClassification::PlaybackNode
        } else {
            SourceClassification::Unknown
        }
    }

    /// How good a Spotify capture candidate the source is.
    pub fn spotify_candidate_score(&self) -> (r: i32)
        ensures
            r == self@.score(),
            0 <= r <= 1190,
    {
        if !self.is_spotify_related() {
            return 0;
        }
        let direct: bool = self.is_direct_spotify_match();
        let mut score: i32 = 0;
        if self.is_linked_to_spotify_client() && self.looks_like_audio_playback_stream() {
            score = 1000;
        } else if direct && self.looks_like_audio_playback_stream() {
            score = 850;
        } else if direct && self.looks_like_playback_node() {
            score = 700;
        } else if self.is_client() && direct {
            score = 250;
        } else if self.is_linked_to_spotify_client() {
            score = 200;
        }
        if direct {
            score = score + 80;
        }
        if self.is_stream_like() {
            score = score + 40;
        }
        if eq_ascii_ci(as_text(&self.media_category), Some("playback")) {
            score = score + 30;
        }
        if eq_ascii_ci(as_text(&self.media_role), Some("music")) {
            score = score + 25;
        }
        if self.target_object.is_some() || self.node_target.is_some() {
            score = score + 10;
        }
        if self.object_serial.is_some() {
            score = score + 5;
        }
        score
    }

    /// Whether the source can be captured.
    pub fn is_capture_eligible(&self) -> (r: bool)
        ensures
            r == self@.eligible(),
    {
        self.looks_like_audio_playback_stream() && self.is_spotify_related()
    }

    /// The linked client in words, behind `lead`.
    fn link_reason(&self, lead: &str) -> (r: String)
        requires
            self@.linked(),
        ensures
            r@ == self@.link_text(lead@),
    {
        let mut r: String = lead.to_string();
        if let Some(id) = self.linked_client_id {
            text::append_decimal(&mut r, id as u64);
        }
        r.append(" (");
        match &self.linked_client_name {
            Some(name) => r.append(name.as_str()),
            None => r.append("<unknown client>"),
        }
        r.append(") via client.id");
        r
    }

    /// Why the source can or cannot be captured.
    pub fn capture_eligibility_reason(&self) -> (r: String)
        ensures
            r@ == self@.eligibility_text(),
    {
        let stream: bool = self.looks_like_audio_playback_stream();
        if self.is_linked_to_spotify_client() && stream {
            return self.link_reason(
                "capture-eligible: audio playback stream linked to Spotify client ",
            );
        }
        let direct: bool = self.is_direct_spotify_match();
        if direct && stream {
            let mut r: String =
                "capture-eligible: audio playback stream directly matches Spotify metadata on ".to_string();
            r.append(text::join_texts(&self.direct_match_fields(), ", ").as_str());
            return r;
        }
        if self.is_client() && direct {
            return "not capture-eligible: Spotify client was found, but no linked playback stream/node was discovered".to_string();
        }
        if !stream {
            return "not capture-eligible: object is not an audio playback stream/node".to_string();
        }
        "not capture-eligible: playback stream is not linked to a Spotify client and has no Spotify-identifying metadata".to_string()
    }

    /// The reasons that say how the source is tied to Spotify.
    fn identity_reasons(&self) -> (r: Vec<String>)
        ensures
            text::views(r@) == self@.identity_indicators(),
    {
        let mut reasons: Vec<String> = Vec::new();
        if self.is_linked_to_spotify_client() {
            push_text(&mut reasons, self.link_reason("linked to Spotify client "));
        }
        if self.is_direct_spotify_match() {
            let mut reason: String = "direct Spotify metadata match on ".to_string();
            reason.append(text::join_texts(&self.direct_match_fields(), ", ").as_str());
            push_text(&mut reasons, reason);
        }
        assert(text::views(reasons@) =~= self@.identity_indicators());
        reasons
    }

    /// Appends the reasons that say how the source plays.
    fn add_playback_reasons(&self, reasons: &mut Vec<String>)
        ensures
            text::views(final(reasons)@) == text::views(old(reasons)@)
                + self@.playback_indicators(),
    {
        if self.looks_like_audio_playback_stream() {
            push_text(reasons, "looks like an audio playback stream/node".to_string());
        } else if self.looks_like_playback_node() {
            push_text(reasons, "looks like an audio playback node but not a stream".to_string());
        }
        if eq_ascii_ci(as_text(&self.media_category), Some("playback")) {
            push_text(reasons, "media.category=Playback".to_string());
        }
        if eq_ascii_ci(as_text(&self.media_role), Some("music")) {
            push_text(reasons, "media.role=music".to_string());
        }
        assert(text::views(reasons@) =~= text::views(old(reasons)@) + self@.playback_indicators());
    }

    /// Appends the reasons that say what the source is connected to.
    fn add_target_reasons(&self, reasons: &mut Vec<String>)
        ensures
            text::views(final(reasons)@) == text::views(old(reasons)@) + self@.target_indicators(),
    {
        if let Some(target_object) = &self.target_object {
            let mut reason: String = "target.object=".to_string();
            reason.append(target_object.as_str());
            push_text(reasons, reason);
        }
        if let Some(node_target) = &self.node_target {
            let mut reason: String = "node.target=".to_string();
            reason.append(node_target.as_str());
            push_text(reasons, reason);
        }
        assert(text::views(reasons@) =~= text::views(old(reasons)@) + self@.target_indicators());
    }

    /// The score and the reasons behind it in words.
    pub fn selection_reason(&self) -> (r: String)
        ensures
            r@ == self@.selection_text(),
    {
        let mut reasons: Vec<String> = self.identity_reasons();
        self.add_playback_reasons(&mut reasons);
        self.add_target_reasons(&mut reasons);
        assert(text::views(reasons@) == self@.indicators());
        if reasons.len() == 0 {
            push_text(&mut reasons, "no Spotify-specific indicators were found".to_string());
            assert(text::views(reasons@) =~= seq!["no Spotify-specific indicators were found"@]);
        }
        let mut r: String = "score ".to_string();
        text::append_decimal(&mut r, self.spotify_candidate_score() as u64);
        r.append(": ");
        r.append(text::join_texts(&reasons, "; ").as_str());
        r
    }

    /// The names of the properties that name Spotify.
    pub fn direct_match_fields(&self) -> (r: Vec<String>)
        ensures
            text::views(r@) == self@.match_fields(),
    {
        let mut fields: Vec<String> = Vec::new();
        if matches_spotify(as_text(&self.application_name)) {
            fields.push("application.name".to_string());
        }
        if matches_spotify(as_text(&self.application_process_binary)) {
            fields.push("application.process.binary".to_string());
        }
        if matches_spotify(as_text(&self.client_name)) {
            fields.push("client.name".to_string());
        }
        if matches_spotify(as_text(&self.media_name)) {
            fields.push("media.name".to_string());
        }
        if matches_spotify(as_text(&self.node_name)) {
            fields.push("node.name".to_string());
        }
        if matches_spotify(as_text(&self.node_description)) {
            fields.push("node.description".to_string());
        }
        assert(text::views(fields@) =~= self@.match_fields());
        fields
    }
}

/// Why a discovery failed.
#[derive(Debug)]
pub enum PipeWireDiscoveryError {
    PipeWire(String),
}

impl PipeWireDiscoveryError {
    /// The message of the error.
    pub open spec fn text(self) -> Seq<char> {
        match self {
            PipeWireDiscoveryError::PipeWire(message) => message@,
        }
    }

    /// The message of the error.
    pub fn message(&self) -> (r: &str)
        ensures
            r@ == self.text(),
    {
        match self {
            PipeWireDiscoveryError::PipeWire(message) => message.as_str(),
        }
    }
}

/// The sources of the list that have to do with Spotify, in the order in which they stand.
pub open spec fn related_sources(sources: Seq<DiscoveredSource>) -> Seq<DiscoveredSource> {
    sources.filter(|source: DiscoveredSource| source@.spotify_related())
}

/// The sources found by a discovery that have to do with Spotify.
pub fn spotify_candidates(
    discovered: Result<Vec<DiscoveredSource>, PipeWireDiscoveryError>,
) -> (r: Result<Vec<DiscoveredSource>, PipeWireDiscoveryError>)
    ensures
        match discovered {
            Ok(sources) => r is Ok && r->Ok_0@ == related_sources(sources@),
            Err(error) => r is Err && r->Err_0 == error,
        },
{
    let sources: Vec<DiscoveredSource> = match discovered {
        Ok(sources) => sources,
        Err(error) => {
            return Err(error);
        },
    };
    let mut related: Vec<DiscoveredSource> = Vec::new();
    let ghost pred = |source: DiscoveredSource| source@.spotify_related();
    reveal(Seq::filter);
    for i in 0..sources.len()
        invariant
            pred == |source: DiscoveredSource| source@.spotify_related(),
            related@ == sources@.take(i as int).filter(pred),
    {
        reveal(Seq::filter);
        assert(sources@.take(i + 1).drop_last() =~= sources@.take(i as int));
        assert(sources@.take(i + 1).last() == sources@[i as int]);
        if sources[i].is_spotify_related() {
            related.push(sources[i].clone());
        }
    }
    assert(sources@.take(sources@.len() as int) =~= sources@);
    Ok(related)
}

/// `a` is a worse candidate than `b`: it has a lower score, or the same score and a lower
/// identifier.
pub open spec fn worse(a: SourceModel, b: SourceModel) -> bool {
    a.score() < b.score() || (a.score() == b.score() && a.id < b.id)
}

/// `best` is the position of the best candidate in the list: it has a positive score, no other is
/// better, and of equally good ones it is the last.
pub open spec fn is_best(sources: Seq<DiscoveredSource>, best: int) -> bool {
    &&& 0 <= best < sources.len()
    &&& sources[best]@.score() > 0
    &&& forall|i: int| 0 <= i < sources.len() ==> !worse(sources[best]@, (#[trigger] sources[i])@)
    &&& forall|i: int| best < i < sources.len() ==> worse((#[trigger] sources[i])@, sources[best]@)
}

/// The position of the best candidate in the list.
fn best_position(sources: &[DiscoveredSource]) -> (r: Option<usize>)
    ensures
        match r {
            Some(best) => is_best(sources@, best as int),
            None => forall|i: int|
                0 <= i < sources@.len() ==> (#[trigger] sources@[i])@.score() <= 0,
        },
{
    let mut best: Option<usize> = None;
    let mut best_score: i32 = 0;
    for i in 0..sources.len()
        invariant
            match best {
                Some(b) => is_best(sources@.take(i as int), b as int) && best_score
                    == sources@[b as int]@.score(),
                None => forall|k: int|
                    0 <= k < i ==> (#[trigger] sources@[k])@.score() <= 0,
            },
    {
        let score: i32 = sources[i].spotify_candidate_score();
        let ghost before = sources@.take(i as int);
        let ghost after = sources@.take(i + 1);
        assert(after =~= before.push(sources@[i as int]));
        if score > 0 {
            let replace: bool = match best {
                Some(b) => best_score < score || (best_score == score && sources[b].id
                    <= sources[i].id),
                None => true,
            };
            if replace {
                best = Some(i);
                best_score = score;
            }
        }
    }
    assert(sources@.take(sources@.len() as int) =~= sources@);
    best
}

/// The best Spotify candidate in the list: the one with the highest score, of these the one with
/// the highest identifier, and of these the last; none if no score is positive.
pub fn select_best_spotify_source(sources: &[DiscoveredSource]) -> (r: Option<DiscoveredSource>)
    ensures
        match r {
            Some(source) => {
                &&& exists|best: int| #[trigger]
                    is_best(sources@, best) && sources@[best] == source
                &&& source@.score() > 0
                &&& forall|i: int|
                    0 <= i < sources@.len() ==> (#[trigger] sources@[i])@.score()
                        < source@.score() || (sources@[i]@.score() == source@.score()
                        && sources@[i].id <= source.id)
            },
            None => forall|i: int|
                0 <= i < sources@.len() ==> (#[trigger] sources@[i])@.score() <= 0,
        },
{
    match best_position(sources) {
        Some(best) => {
            let source: DiscoveredSource = sources[best].clone();
            assert(is_best(sources@, best as int) && sources@[best as int] == source);
            proof {
                assert forall|i: int| 0 <= i < sources@.len() implies (#[trigger] sources@[i])@.score()
                    < source@.score() || (sources@[i]@.score() == source@.score() && sources@[i].id
                    <= source.id) by {
                    law_best_candidate_has_the_highest_score(sources@, best as int, i);
                }
            }
            Some(source)
        },
        None => None,
    }
}

/// The best Spotify candidate among the sources found by a discovery.
pub fn find_best_spotify_source(
    discovered: Result<Vec<DiscoveredSource>, PipeWireDiscoveryError>,
) -> (r: Result<Option<DiscoveredSource>, PipeWireDiscoveryError>)
    ensures
        match discovered {
            Ok(sources) => match r {
                Ok(Some(source)) => exists|best: int| #[trigger]
                    is_best(sources@, best) && sources@[best] == source,
                Ok(None) => forall|i: int|
                    0 <= i < sources@.len() ==> (#[trigger] sources@[i])@.score() <= 0,
                Err(_) => false,
            },
            Err(error) => r is Err && r->Err_0 == error,
        },
{
    match discovered {
        Ok(sources) => Ok(select_best_spotify_source(sources.as_slice())),
        Err(error) => Err(error),
    }
}

/// A source has a positive score exactly when it has to do with Spotify.
pub proof fn law_score_marks_spotify(source: SourceModel)
    ensures
        source.score() > 0 <==> source.spotify_related(),
        source.score() >= 0,
{
}

/// A source that can be captured has a higher score than every source that cannot.
pub proof fn law_eligible_sources_rank_first(source: SourceModel, other: SourceModel)
    requires
        source.eligible(),
        !other.eligible(),
    ensures
        source.score() > other.score(),
{
}

/// The best candidate has to do with Spotify, and it can be captured if any source of the list
/// can.
pub proof fn law_best_candidate_is_eligible_if_any(sources: Seq<DiscoveredSource>, best: int)
    requires
        is_best(sources, best),
    ensures
        sources[best]@.spotify_related(),
        (exists|i: int| 0 <= i < sources.len() && (#[trigger] sources[i])@.eligible()) <==> sources[best]@.eligible(),
{
    law_score_marks_spotify(sources[best]@);
    if exists|i: int| 0 <= i < sources.len() && (#[trigger] sources[i])@.eligible() {
        let i = choose|i: int| 0 <= i < sources.len() && (#[trigger] sources[i])@.eligible();
        if !sources[best]@.eligible() {
            law_eligible_sources_rank_first(sources[i]@, sources[best]@);
            assert(worse(sources[best]@, sources[i]@));
        }
    }
}

/// A list has at most one best candidate.
pub proof fn law_best_candidate_is_unique(sources: Seq<DiscoveredSource>, a: int, b: int)
    requires
        is_best(sources, a),
        is_best(sources, b),
    ensures
        a == b,
{
    assert(!worse(sources[a]@, sources[b]@));
    assert(!worse(sources[b]@, sources[a]@));
}

/// A source found to be a linked playback node can be captured, and one found to be a playback
/// node without a stream or nothing known cannot.
pub proof fn law_classification_tells_eligibility(source: SourceModel)
    ensures
        source.class() == SourceClassification::LinkedSpotifyPlaybackNode ==> source.eligible(),
        source.class() == SourceClassification::Stream ==> source.eligible()
            == source.spotify_related(),
        source.class() == SourceClassification::PlaybackNode || source.class()
            == SourceClassification::Unknown ==> !source.eligible(),
{
}

/// Whether a text names Spotify does not depend on ASCII case.
pub proof fn law_spotify_names_ignore_case(a: Seq<char>, b: Seq<char>)
    requires
        text::equal_ci(a, b),
    ensures
        names_spotify(a) == names_spotify(b),
{
}

/// The reason that is given for a source begins with `capture-eligible` exactly when the source
/// can be captured.
pub proof fn law_reason_tells_eligibility(source: SourceModel)
    ensures
        text::begins_with(source.eligibility_text(), "capture-eligible"@) <==> source.eligible(),
{
    reveal_strlit("capture-eligible");
    reveal_strlit("capture-eligible: audio playback stream linked to Spotify client ");
    reveal_strlit("capture-eligible: audio playback stream directly matches Spotify metadata on ");
    reveal_strlit(
        "not capture-eligible: Spotify client was found, but no linked playback stream/node was discovered",
    );
    reveal_strlit("not capture-eligible: object is not an audio playback stream/node");
    reveal_strlit(
        "not capture-eligible: playback stream is not linked to a Spotify client and has no Spotify-identifying metadata",
    );
    let reason = source.eligibility_text();
    let head = "capture-eligible"@;
    if source.eligible() {
        assert(reason.subrange(0, head.len() as int) =~= head);
    } else {
        assert(reason[0] == 'n');
        assert(head[0] == 'c');
        if text::begins_with(reason, head) {
            assert(reason.subrange(0, head.len() as int)[0] == reason[0]);
        }
    }
}

/// The best candidate has the highest score of all sources in the list. Only of equal scores does
/// the identifier decide, and only of equal identifiers the place in the list.
pub proof fn law_best_candidate_has_the_highest_score(
    sources: Seq<DiscoveredSource>,
    best: int,
    i: int,
)
    requires
        is_best(sources, best),
        0 <= i < sources.len(),
    ensures
        sources[best]@.score() > 0,
        sources[i]@.score() <= sources[best]@.score(),
        sources[i]@.score() == sources[best]@.score() ==> sources[i].id <= sources[best].id,
        sources[i]@.score() == sources[best]@.score() && sources[i].id == sources[best].id ==> i
            <= best,
{
    assert(!worse(sources[best]@, sources[i]@));
    if i > best {
        assert(worse(sources[i]@, sources[best]@));
    }
}

/// A source with a positive score that no other source beats, by its score, then by its identifier
/// and then by its place, is the best candidate.
pub proof fn law_the_highest_score_is_best(sources: Seq<DiscoveredSource>, best: int)
    requires
        0 <= best < sources.len(),
        sources[best]@.score() > 0,
        forall|i: int|
            0 <= i < sources.len() ==> {
                ||| (#[trigger] sources[i])@.score() < sources[best]@.score()
                ||| sources[i]@.score() == sources[best]@.score() && sources[i].id
                    < sources[best].id
                ||| sources[i]@.score() == sources[best]@.score() && sources[i].id
                    == sources[best].id && i <= best
            },
    ensures
        is_best(sources, best),
{
}

/// The score is a sum: being reachable by a serial number, being connected to something and
/// playing music each add a fixed amount to what else is known of a source related to Spotify,
/// whatever that is; another role adds nothing, nor does the identifier.
pub proof fn law_properties_add_to_the_score(
    source: SourceModel,
    serial: u64,
    target: Seq<char>,
    role: Seq<char>,
    id: u32,
)
    requires
        source.spotify_related(),
    ensures
        source.object_serial is None ==> (SourceModel {
            object_serial: Some(serial),
            ..source
        }).score() == source.score() + 5,
        source.target_object is None && source.node_target is None ==> {
            &&& (SourceModel { target_object: Some(target), ..source }).score() == source.score()
                + 10
            &&& (SourceModel { node_target: Some(target), ..source }).score() == source.score() + 10
            &&& (SourceModel {
                target_object: Some(target),
                node_target: Some(target),
                ..source
            }).score() == source.score() + 10
        },
        source.media_role is None && text::equal_ci(role, "music"@) ==> (SourceModel {
            media_role: Some(role),
            ..source
        }).score() == source.score() + 25,
        source.media_role is None && !text::equal_ci(role, "music"@) ==> (SourceModel {
            media_role: Some(role),
            ..source
        }).score() == source.score(),
        (SourceModel { id, ..source }).score() == source.score(),
        (SourceModel { client_id: Some(id), ..source }).score() == source.score(),
{
}

/// What a source with none of these properties scores, by what is known of it: linked streams
/// start at 1000, streams that name Spotify at 850, other playback nodes that do at 700, Spotify
/// clients at 250 and everything else that is linked at 200.
pub proof fn law_scores_start_by_kind(source: SourceModel)
    requires
        source.object_serial is None,
        source.target_object is None,
        source.node_target is None,
        source.media_role is None,
    ensures
        ({
            let direct = source.direct_match();
            let stream = source.playback_stream();
            let extra = (if direct {
                80int
            } else {
                0
            }) + (if source.stream_like() {
                40int
            } else {
                0
            }) + (if source.media_category is Some && text::equal_ci(
                source.media_category->0,
                "playback"@,
            ) {
                30int
            } else {
                0
            });
            let client = source.object_type == "Client"@;
            &&& !direct && source.linked_client_id is None ==> source.score() == 0
            &&& source.linked_client_id is Some && stream ==> source.score() == 1000 + extra
            &&& source.linked_client_id is None && direct && stream ==> source.score() == 850
                + extra
            &&& direct && !stream && source.playback_node() ==> source.score() == 700 + extra
            &&& direct && !source.playback_node() && client ==> source.score() == 250 + extra
            &&& source.linked_client_id is Some && !stream && !(direct && (source.playback_node()
                || client)) ==> source.score() == 200 + extra
            &&& source.linked_client_id is None && direct && !source.playback_node() && !client
                ==> source.score() == extra
        }),
{
}

/// Of two streams that are otherwise known as well, the one that is linked to a Spotify client
/// scores higher than the one that only names Spotify.
pub proof fn law_linked_streams_come_before_named_ones(linked: SourceModel, named: SourceModel)
    requires
        linked.linked_client_id is Some,
        linked.playback_stream(),
        named.linked_client_id is None,
        named.playback_stream(),
        linked.stream_like() == named.stream_like(),
        linked.media_category == named.media_category,
        linked.media_role == named.media_role,
        linked.target_object is Some == named.target_object is Some,
        linked.node_target is Some == named.node_target is Some,
        linked.object_serial is Some == named.object_serial is Some,
    ensures
        linked.score() > named.score(),
{
}

/// A source has to do with audio if some property holds the word at any place and in any case, or
/// if its media type is that word.
pub proof fn law_audio_is_named_somewhere(
    source: SourceModel,
    before: Seq<char>,
    word: Seq<char>,
    behind: Seq<char>,
)
    requires
        text::equal_ci(word, "audio"@),
    ensures
        source.media_class == Some(before + word + behind) ==> source.audio_relevant(),
        source.media_name == Some(before + word + behind) ==> source.audio_relevant(),
        source.node_description == Some(before + word + behind) ==> source.audio_relevant(),
        source.node_name == Some(before + word + behind) ==> source.audio_relevant(),
        source.media_type == Some(word) ==> source.audio_relevant(),
{
    text::law_texts_hold_their_parts_without_case(before, word, behind, "audio"@);
}

/// A source of which no property holds that word has nothing to do with audio.
pub proof fn law_audio_has_to_be_named(source: SourceModel)
    requires
        source.media_class is Some ==> !text::contains_ci(source.media_class->0, "audio"@),
        source.media_name is Some ==> !text::contains_ci(source.media_name->0, "audio"@),
        source.node_description is Some ==> !text::contains_ci(source.node_description->0, "audio"@),
        source.node_name is Some ==> !text::contains_ci(source.node_name->0, "audio"@),
        source.media_type is Some ==> !text::equal_ci(source.media_type->0, "audio"@),
    ensures
        !source.audio_relevant(),
        !source.playback_stream(),
        !source.playback_node(),
        !source.eligible(),
{
}

/// Spotify is named by a word of its own at any place and in any case.
pub proof fn law_spotify_is_a_word(before: Seq<char>, word: Seq<char>, behind: Seq<char>)
    requires
        before.len() == 0 || !text::is_token_char(before.last()),
        behind.len() == 0 || !text::is_token_char(behind[0]),
        text::equal_ci(word, "spotify"@),
    ensures
        names_spotify(before + word + behind),
{
    reveal_strlit("spotify");
    let s = before + word + behind;
    let lowered = text::lower(s);
    assert(lowered =~= text::lower(before) + text::lower(word) + text::lower(behind));
    assert(text::lower(word) =~= text::lower("spotify"@));
    assert(text::lower("spotify"@) =~= "spotify"@);
    assert forall|i: int| 0 <= i < text::lower(word).len() implies text::is_token_char(
        #[trigger] text::lower(word)[i],
    ) by {
        assert(text::lower(word)[i] == "spotify"@[i]);
    }
    if before.len() > 0 {
        assert(text::lower(before).last() == text::lower_char(before.last()));
    }
    if behind.len() > 0 {
        assert(text::lower(behind)[0] == text::lower_char(behind[0]));
    }
    text::law_words_are_tokens(
        text::lower(before),
        text::lower(word),
        text::lower(behind),
        "spotify"@,
    );
}

/// What names Spotify is one of the known identifiers or has such a word.
pub proof fn law_names_of_spotify(s: Seq<char>)
    ensures
        names_spotify(s) <==> {
            ||| text::equal_ci(s, "com.spotify.client"@)
            ||| text::equal_ci(s, "spotify_player"@)
            ||| text::equal_ci(s, "spotifyd"@)
            ||| text::equal_ci(s, "spotify-launcher"@)
            ||| text::has_token(text::lower(s), "spotify"@)
        },
{
    reveal_strlit("spotify");
    reveal_strlit("com.spotify.client");
    reveal_strlit("spotify_player");
    reveal_strlit("spotifyd");
    reveal_strlit("spotify-launcher");
    assert(text::lower("spotify"@) =~= "spotify"@);
    assert(text::lower("com.spotify.client"@) =~= "com.spotify.client"@);
    assert(text::lower("spotify_player"@) =~= "spotify_player"@);
    assert(text::lower("spotifyd"@) =~= "spotifyd"@);
    assert(text::lower("spotify-launcher"@) =~= "spotify-launcher"@);
    if text::lower(s) == "spotify"@ {
        let none = Seq::<char>::empty();
        assert(none + text::lower(s) + none =~= text::lower(s));
        assert forall|i: int| 0 <= i < text::lower(s).len() implies text::is_token_char(
            #[trigger] text::lower(s)[i],
        ) by {
            assert(text::lower(s)[i] == "spotify"@[i]);
        }
        text::law_words_are_tokens(none, text::lower(s), none, "spotify"@);
    }
}

/// Which of its own names tie a source to Spotify: each of the six does alone, and without them
/// only a linked client does.
pub proof fn law_names_and_links_tie_to_spotify(source: SourceModel)
    ensures
        source.direct_match() <==> {
            ||| source.application_name is Some && names_spotify(source.application_name->0)
            ||| source.application_process_binary is Some && names_spotify(
                source.application_process_binary->0,
            )
            ||| source.client_name is Some && names_spotify(source.client_name->0)
            ||| source.media_name is Some && names_spotify(source.media_name->0)
            ||| source.node_name is Some && names_spotify(source.node_name->0)
            ||| source.node_description is Some && names_spotify(source.node_description->0)
        },
        source.spotify_related() <==> source.direct_match() || source.linked_client_id is Some,
        source.spotify_client() <==> source.direct_match() && source.object_type == "Client"@,
        source.linked() <==> source.linked_client_id is Some,
{
}

/// What makes a source a stream, a playback stream and a playback node.
pub proof fn law_kinds_of_sources(source: SourceModel)
    ensures
        ({
            let class = source.media_class;
            let playback = source.media_category is Some && text::equal_ci(
                source.media_category->0,
                "playback"@,
            );
            let stream_class = class is Some && text::begins_with(class->0, "Stream/"@);
            let endpoint = source.object_type == "EndpointStream"@;
            &&& source.stream_like() <==> stream_class || endpoint
            &&& source.playback_stream() <==> source.audio_relevant() && ((class is Some
                && text::contains_ci(class->0, "stream/output/audio"@)) || (stream_class
                && text::contains_ci(class->0, "output"@)) || ((stream_class || endpoint)
                && playback))
            &&& source.playback_node() <==> source.playback_stream() || (source.audio_relevant()
                && ((class is Some && text::contains_ci(class->0, "audio/sink"@)) || playback))
            &&& source.eligible() <==> source.playback_stream() && (source.direct_match()
                || source.linked_client_id is Some)
        }),
{
}

/// What kind of object a source is taken for.
pub proof fn law_classes_of_sources(source: SourceModel)
    ensures
        ({
            let linked = source.linked_client_id is Some;
            let stream = source.playback_stream();
            let client = source.object_type == "Client"@ && source.direct_match();
            &&& source.class() == SourceClassification::LinkedSpotifyPlaybackNode <==> linked
                && stream
            &&& source.class() == SourceClassification::ClientOnly <==> client && !(linked
                && stream)
            &&& source.class() == SourceClassification::Stream <==> stream && !linked && !client
            &&& source.class() == SourceClassification::PlaybackNode <==> !stream && !client
                && source.playback_node()
            &&& source.class() == SourceClassification::Unknown <==> !client
                && !source.playback_node()
        }),
{
}

/// A source is shown by the first of its names that is set, in this order.
pub proof fn law_shown_names_go_by_precedence(source: SourceModel)
    ensures
        ({
            let names = seq![
                source.node_name,
                source.node_description,
                source.media_name,
                source.application_name,
                source.client_name,
                source.linked_client_name,
            ];
            &&& forall|k: int|
                0 <= k < 6 && (#[trigger] names[k]) is Some && (forall|j: int|
                    0 <= j < k ==> (#[trigger] names[j]) is None) ==> source.shown_name()
                    == names[k]->0
            &&& (forall|j: int| 0 <= j < 6 ==> (#[trigger] names[j]) is None)
                ==> source.shown_name() == "<unnamed>"@
        }),
{
    let names = seq![
        source.node_name,
        source.node_description,
        source.media_name,
        source.application_name,
        source.client_name,
        source.linked_client_name,
    ];
    assert(names[0] == source.node_name);
    assert(names[1] == source.node_description);
    assert(names[2] == source.media_name);
    assert(names[3] == source.application_name);
    assert(names[4] == source.client_name);
    assert(names[5] == source.linked_client_name);
}

/// The matching properties are listed by name, each once and in a fixed order.
pub proof fn law_matching_properties_are_listed(source: SourceModel)
    ensures
        ({
            let fields = source.match_fields();
            let a = if source.application_name is Some && names_spotify(
                source.application_name->0,
            ) {
                1int
            } else {
                0
            };
            let b = a + if source.application_process_binary is Some && names_spotify(
                source.application_process_binary->0,
            ) {
                1int
            } else {
                0
            };
            let c = b + if source.client_name is Some && names_spotify(source.client_name->0) {
                1int
            } else {
                0
            };
            let d = c + if source.media_name is Some && names_spotify(source.media_name->0) {
                1int
            } else {
                0
            };
            let e = d + if source.node_name is Some && names_spotify(source.node_name->0) {
                1int
            } else {
                0
            };
            let f = e + if source.node_description is Some && names_spotify(
                source.node_description->0,
            ) {
                1int
            } else {
                0
            };
            &&& fields.len() == f
            &&& 0 < a ==> fields[0] == "application.name"@
            &&& a < b ==> fields[a] == "application.process.binary"@
            &&& b < c ==> fields[b] == "client.name"@
            &&& c < d ==> fields[c] == "media.name"@
            &&& d < e ==> fields[d] == "node.name"@
            &&& e < f ==> fields[e] == "node.description"@
        }),
{
}

/// The reason that is given for a source, by what is known of it: it names the linked client, or
/// else the properties that name Spotify, or what is missing.
pub proof fn law_reasons_say_what_is_known(source: SourceModel)
    ensures
        ({
            let stream = source.playback_stream();
            let direct = source.direct_match();
            let client = source.object_type == "Client"@;
            let name = if source.linked_client_name is Some {
                source.linked_client_name->0
            } else {
                "<unknown client>"@
            };
            &&& source.linked_client_id is Some && stream ==> source.eligibility_text()
                == "capture-eligible: audio playback stream linked to Spotify client "@
                + text::decimal(source.linked_client_id->0 as nat) + " ("@ + name
                + ") via client.id"@
            &&& source.linked_client_id is None && stream && direct ==> source.eligibility_text()
                == "capture-eligible: audio playback stream directly matches Spotify metadata on "@
                + text::join(source.match_fields(), ", "@)
            &&& !stream && direct && client ==> source.eligibility_text()
                == "not capture-eligible: Spotify client was found, but no linked playback stream/node was discovered"@
            &&& !stream && !(direct && client) ==> source.eligibility_text()
                == "not capture-eligible: object is not an audio playback stream/node"@
            &&& source.linked_client_id is None && stream && !direct ==> source.eligibility_text()
                == "not capture-eligible: playback stream is not linked to a Spotify client and has no Spotify-identifying metadata"@
        }),
{
}

/// How a source is tied to Spotify is told by its linked client and by the properties that name
/// Spotify, and what it is connected to by the two properties that say so.
pub proof fn law_ties_and_targets_are_told(source: SourceModel)
    ensures
        ({
            let none = Seq::<Seq<char>>::empty();
            let name = if source.linked_client_name is Some {
                source.linked_client_name->0
            } else {
                "<unknown client>"@
            };
            let link = "linked to Spotify client "@ + text::decimal(
                source.linked_client_id->0 as nat,
            ) + " ("@ + name + ") via client.id"@;
            let direct = "direct Spotify metadata match on "@ + text::join(
                source.match_fields(),
                ", "@,
            );
            let object = "target.object="@ + source.target_object->0;
            let node = "node.target="@ + source.node_target->0;
            &&& source.identity_indicators() == (match (
                source.linked_client_id is Some,
                source.direct_match(),
            ) {
                (true, true) => seq![link, direct],
                (true, false) => seq![link],
                (false, true) => seq![direct],
                (false, false) => none,
            })
            &&& source.target_indicators() == (match (
                source.target_object is Some,
                source.node_target is Some,
            ) {
                (true, true) => seq![object, node],
                (true, false) => seq![object],
                (false, true) => seq![node],
                (false, false) => none,
            })
        }),
{
    assert(source.identity_indicators().len() <= 2);
    assert(source.target_indicators().len() <= 2);
}

/// How a source plays is told by whether it is a stream or another playback node, and then by its
/// category and its role.
pub proof fn law_playback_is_told(source: SourceModel)
    ensures
        ({
            let told = source.playback_indicators();
            let a = if source.playback_node() {
                1int
            } else {
                0
            };
            let b = a + if source.media_category is Some && text::equal_ci(
                source.media_category->0,
                "playback"@,
            ) {
                1int
            } else {
                0
            };
            let c = b + if source.media_role is Some && text::equal_ci(
                source.media_role->0,
                "music"@,
            ) {
                1int
            } else {
                0
            };
            &&& told.len() == c
            &&& source.playback_stream() ==> told[0] == "looks like an audio playback stream/node"@
            &&& !source.playback_stream() && source.playback_node() ==> told[0]
                == "looks like an audio playback node but not a stream"@
            &&& a < b ==> told[a] == "media.category=Playback"@
            &&& b < c ==> told[b] == "media.role=music"@
        }),
{
}

/// The selection of a source is explained by its score and by all that is told of it, in order.
pub proof fn law_selections_say_all_that_counts(source: SourceModel)
    ensures
        ({
            let told = source.identity_indicators() + source.playback_indicators()
                + source.target_indicators();
            let head = "score "@ + text::decimal(source.score() as nat) + ": "@;
            &&& told.len() > 0 ==> source.selection_text() == head + text::join(told, "; "@)
            &&& told.len() == 0 ==> source.selection_text() == head
                + "no Spotify-specific indicators were found"@
        }),
{
    text::law_joining_lists(
        Seq::empty(),
        Seq::empty(),
        "no Spotify-specific indicators were found"@,
        "; "@,
    );
}

/// The candidates of two lists are the candidates of the first and then those of the second; a
/// single source is one exactly if it has to do with Spotify.
pub proof fn law_candidates_are_picked_one_by_one(
    a: Seq<DiscoveredSource>,
    b: Seq<DiscoveredSource>,
    source: DiscoveredSource,
)
    ensures
        related_sources(a + b) == related_sources(a) + related_sources(b),
        source@.spotify_related() ==> related_sources(seq![source]) == seq![source],
        !source@.spotify_related() ==> related_sources(seq![source]).len() == 0,
        related_sources(Seq::empty()).len() == 0,
{
    let pred = |source: DiscoveredSource| source@.spotify_related();
    Seq::filter_distributes_over_add(a, b, pred);
    reveal(Seq::filter);
    assert(seq![source].drop_last() =~= Seq::<DiscoveredSource>::empty());
    assert(related_sources(Seq::empty()) =~= Seq::empty());
    assert(related_sources(seq![source]) =~= if source@.spotify_related() {
        seq![source]
    } else {
        Seq::empty()
    });
}

/// The model of a source shows each of its properties under its own name.
pub proof fn law_models_show_every_property(source: DiscoveredSource)
    ensures
        source@.id == source.id,
        source@.object_serial == source.object_serial,
        source@.object_type == source.object_type@,
        source@.client_id == source.client_id,
        source@.linked_client_id == source.linked_client_id,
        source@.linked_client_name == text_of(source.linked_client_name),
        source@.node_name == text_of(source.node_name),
        source@.node_description == text_of(source.node_description),
        source@.application_name == text_of(source.application_name),
        source@.application_process_binary == text_of(source.application_process_binary),
        source@.client_name == text_of(source.client_name),
        source@.media_name == text_of(source.media_name),
        source@.media_class == text_of(source.media_class),
        source@.media_role == text_of(source.media_role),
        source@.media_category == text_of(source.media_category),
        source@.media_type == text_of(source.media_type),
        source@.target_object == text_of(source.target_object),
        source@.node_target == text_of(source.node_target),
        text_of(source.node_name) is Some <==> source.node_name is Some,
        source.node_name is Some ==> text_of(source.node_name)->0 == source.node_name->0@,
{
}

/// An optional text is shown in full, and the message of a failed discovery is the one that it was
/// given.
pub proof fn law_optional_texts_are_shown_in_full(value: String)
    ensures
        text_of(Some(value)) == Some(value@),
        text_of(None) == None::<Seq<char>>,
        PipeWireDiscoveryError::PipeWire(value).text() == value@,
{
}

} // verus!
