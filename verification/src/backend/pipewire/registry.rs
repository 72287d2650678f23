//! From the objects that a PipeWire registry announces to the list of discovered sources.

use crate::backend::pipewire::discovery::{DiscoveredSource, SourceModel};
use crate::text;
use std::collections::HashMap;
use vstd::prelude::*;

verus! {

/// The type of an announced object.
#[derive(Debug, PartialEq, Eq)]
pub enum ObjectType {
    Node,
    Client,
    ClientNode,
    ClientSession,
    EndpointStream,
    /// Any other type, with its name.
    Other(String),
}

impl ObjectType {
    /// Objects of this type can be sources.
    pub open spec fn relevant(self) -> bool {
        !(self is Other)
    }

    /// The name of the type.
    pub open spec fn name(self) -> Seq<char> {
        match self {
            ObjectType::Node => "Node"@,
            ObjectType::Client => "Client"@,
            ObjectType::ClientNode => "ClientNode"@,
            ObjectType::ClientSession => "ClientSession"@,
            ObjectType::EndpointStream => "EndpointStream"@,
            ObjectType::Other(name) => name@,
        }
    }
}

/// One property of an announced object.
#[derive(Debug, PartialEq, Eq)]
pub struct Property {
    pub key: String,
    pub value: String,
}

/// An announced object: its identifier, its type, and its properties where it has any.
#[derive(Debug, PartialEq, Eq)]
pub struct RegistryGlobal {
    pub id: u32,
    pub object_type: ObjectType,
    pub props: Option<Vec<Property>>,
}

/// The value of the first property with that key.
pub open spec fn lookup(props: Seq<Property>, key: Seq<char>) -> Option<Seq<char>>
    decreases props.len(),
{
    if props.len() == 0 {
        None
    } else if props[0].key@ == key {
        Some(props[0].value@)
    } else {
        lookup(props.drop_first(), key)
    }
}

impl RegistryGlobal {
    /// The value of a property.
    pub open spec fn raw_property(self, key: Seq<char>) -> Option<Seq<char>> {
        match self.props {
            Some(props) => lookup(props@, key),
            None => None,
        }
    }

    /// The value of a property that holds more than white space.
    pub open spec fn text_property(self, key: Seq<char>) -> Option<Seq<char>> {
        let value = self.raw_property(key);
        if value is Some && !text::is_blank(value->0) {
            value
        } else {
            None
        }
    }

    /// The value of the first of two properties that holds more than white space.
    pub open spec fn either_property(self, key: Seq<char>, other: Seq<char>) -> Option<Seq<char>> {
        if self.text_property(key) is Some {
            self.text_property(key)
        } else {
            self.text_property(other)
        }
    }

    /// The unsigned number, at most `max`, that a property holds.
    pub open spec fn number_property(self, key: Seq<char>, max: nat) -> Option<nat> {
        match self.raw_property(key) {
            Some(value) => text::unsigned_value(value, max),
            None => None,
        }
    }

    /// The source that the object describes, kept or not.
    pub open spec fn described(self) -> SourceModel {
        SourceModel {
            id: self.id,
            object_serial: match self.number_property("object.serial"@, u64::MAX as nat) {
                Some(n) => Some(n as u64),
                None => None,
            },
            object_type: self.object_type.name(),
            client_id: match self.number_property("client.id"@, u32::MAX as nat) {
                Some(n) => Some(n as u32),
                None => None,
            },
            linked_client_id: None,
            linked_client_name: None,
            node_name: self.text_property("node.name"@),
            node_description: self.text_property("node.description"@),
            application_name: self.text_property("application.name"@),
            application_process_binary: self.text_property("application.process.binary"@),
            client_name: self.either_property("client.name"@, "application.name"@),
            media_name: self.text_property("media.name"@),
            media_class: self.text_property("media.class"@),
            media_role: self.text_property("media.role"@),
            media_category: self.text_property("media.category"@),
            media_type: self.text_property("media.type"@),
            target_object: self.either_property("target.object"@, "target.node"@),
            node_target: self.text_property("node.target"@),
        }
    }

    /// The source that the object gives, if it gives one.
    pub open spec fn source(self) -> Option<SourceModel> {
        if self.object_type.relevant() && self.described().kept() {
            Some(self.described())
        } else {
            None
        }
    }
}

impl SourceModel {
    /// The source says enough to be kept.
    pub open spec fn kept(self) -> bool {
        ||| self.object_type == "Client"@
        ||| self.audio_relevant()
        ||| self.direct_match()
        ||| self.client_id is Some
        ||| self.target_object is Some
        ||| self.node_target is Some
    }
}

/// Whether objects of this type can be sources.
pub fn is_relevant_object_type(object_type: &ObjectType) -> (r: bool)
    ensures
        r == object_type.relevant(),
{
    match object_type {
        ObjectType::Other(_) => false,
        _ => true,
    }
}

/// The name of an object type.
pub fn object_type_name(object_type: &ObjectType) -> (r: &str)
    ensures
        r@ == object_type.name(),
{
    match object_type {
        ObjectType::Node => "Node",
        ObjectType::Client => "Client",
        ObjectType::ClientNode => "ClientNode",
        ObjectType::ClientSession => "ClientSession",
        ObjectType::EndpointStream => "EndpointStream",
        ObjectType::Other(name) => name.as_str(),
    }
}

/// The value of the first property with that key.
fn find_value<'a>(props: &'a Vec<Property>, key: &str) -> (r: Option<&'a str>)
    ensures
        match r {
            Some(value) => lookup(props@, key@) == Some(value@),
            None => lookup(props@, key@) is None,
        },
{
    let mut i: usize = 0;
    assert(props@.subrange(0, props@.len() as int) =~= props@);
    while i < props.len()
        invariant
            i <= props.len(),
            lookup(props@, key@) == lookup(props@.subrange(i as int, props@.len() as int), key@),
        decreases props.len() - i,
    {
        if text::equal_text(props[i].key.as_str(), key) {
            return Some(props[i].value.as_str());
        }
        assert(props@.subrange(i as int, props@.len() as int).drop_first() =~= props@.subrange(
            i + 1,
            props@.len() as int,
        ));
        i = i + 1;
    }
    None
}

impl RegistryGlobal {
    /// The value of a property.
    fn value(&self, key: &str) -> (r: Option<&str>)
        ensures
            match r {
                Some(value) => self.raw_property(key@) == Some(value@),
                None => self.raw_property(key@) is None,
            },
    {
        match &self.props {
            Some(props) => find_value(props, key),
            None => None,
        }
    }

    /// The value of a property that holds more than white space.
    pub fn property(&self, key: &str) -> (r: Option<String>)
        ensures
            match r {
                Some(value) => self.text_property(key@) == Some(value@),
                None => self.text_property(key@) is None,
            },
    {
        match self.value(key) {
            Some(value) => if text::is_blank_text(value) {
                None
            } else {
                Some(value.to_string())
            },
            None => None,
        }
    }

    /// The value of the first of two properties that holds more than white space.
    pub fn first_property(&self, key: &str, other: &str) -> (r: Option<String>)
        ensures
            match r {
                Some(value) => self.either_property(key@, other@) == Some(value@),
                None => self.either_property(key@, other@) is None,
            },
    {
        match self.property(key) {
            Some(value) => Some(value),
            None => self.property(other),
        }
    }

    /// The number that a property holds, if it fits 64 bits.
    pub fn property_u64(&self, key: &str) -> (r: Option<u64>)
        ensures
            match r {
                Some(n) => self.number_property(key@, u64::MAX as nat) == Some(n as nat),
                None => self.number_property(key@, u64::MAX as nat) is None,
            },
    {
        match self.value(key) {
            Some(value) => text::parse_unsigned(value, u64::MAX),
            None => None,
        }
    }

    /// The number that a property holds, if it fits 32 bits.
    pub fn property_u32(&self, key: &str) -> (r: Option<u32>)
        ensures
            match r {
                Some(n) => self.number_property(key@, u32::MAX as nat) == Some(n as nat),
                None => self.number_property(key@, u32::MAX as nat) is None,
            },
    {
        match self.value(key) {
            Some(value) => match text::parse_unsigned(value, u32::MAX as u64) {
                Some(n) => Some(n as u32),
                None => None,
            },
            None => None,
        }
    }
}

/// Whether the source says enough to be kept.
pub fn should_keep_source(source: &DiscoveredSource) -> (r: bool)
    ensures
        r == source@.kept(),
{
    text::equal_text(source.object_type.as_str(), "Client") || source.is_audio_relevant()
        || source.is_direct_spotify_match() || source.client_id.is_some()
        || source.target_object.is_some() || source.node_target.is_some()
}

/// The source that an announced object gives, if it gives one.
pub fn source_from_global(global: &RegistryGlobal) -> (r: Option<DiscoveredSource>)
    ensures
        match r {
            Some(source) => global.source() == Some(source@),
            None => global.source() is None,
        },
{
    if !is_relevant_object_type(&global.object_type) {
        return None;
    }
    let source: DiscoveredSource = DiscoveredSource {
        id: global.id,
        object_serial: global.property_u64("object.serial"),
        object_type: object_type_name(&global.object_type).to_string(),
        client_id: global.property_u32("client.id"),
        linked_client_id: None,
        linked_client_name: None,
        node_name: global.property("node.name"),
        node_description: global.property("node.description"),
        application_name: global.property("application.name"),
        application_process_binary: global.property("application.process.binary"),
        client_name: global.first_property("client.name", "application.name"),
        media_name: global.property("media.name"),
        media_class: global.property("media.class"),
        media_role: global.property("media.role"),
        media_category: global.property("media.category"),
        media_type: global.property("media.type"),
        target_object: global.first_property("target.object", "target.node"),
        node_target: global.property("node.target"),
    };
    assert(source@ =~= global.described());
    if should_keep_source(&source) {
        Some(source)
    } else {
        None
    }
}

/// The models of a list of sources.
pub open spec fn models(sources: Seq<DiscoveredSource>) -> Seq<SourceModel> {
    Seq::new(sources.len(), |i: int| sources[i]@)
}

/// The shown name of the last Spotify client in the list with that identifier.
pub open spec fn client_name_for(sources: Seq<SourceModel>, id: u32) -> Option<Seq<char>>
    decreases sources.len(),
{
    if sources.len() == 0 {
        None
    } else if sources.last().spotify_client() && sources.last().id == id {
        Some(sources.last().shown_name())
    } else {
        client_name_for(sources.drop_last(), id)
    }
}

/// A source linked to its client, where that is one of the Spotify clients in the list.
pub open spec fn link(source: SourceModel, sources: Seq<SourceModel>) -> SourceModel {
    if source.client_id is Some && client_name_for(sources, source.client_id->0) is Some {
        SourceModel {
            linked_client_id: source.client_id,
            linked_client_name: client_name_for(sources, source.client_id->0),
            ..source
        }
    } else {
        source
    }
}

/// The list with each source linked to its client.
pub open spec fn resolved(sources: Seq<SourceModel>) -> Seq<SourceModel> {
    Seq::new(sources.len(), |i: int| link(sources[i], sources))
}

/// The names of the Spotify clients by identifier; of several clients with one identifier the
/// last counts.
fn spotify_clients(sources: &Vec<DiscoveredSource>) -> (r: HashMap<u32, String>)
    ensures
        forall|id: u32| #[trigger]
            r@.contains_key(id) <==> client_name_for(models(sources@), id) is Some,
        forall|id: u32| #[trigger]
            r@.contains_key(id) ==> client_name_for(models(sources@), id) == Some(r@[id]@),
{
    broadcast use vstd::std_specs::hash::group_hash_axioms;

    let mut clients: HashMap<u32, String> = HashMap::new();
    let ghost all = models(sources@);
    for i in 0..sources.len()
        invariant
            all == models(sources@),
            forall|id: u32| #[trigger]
                clients@.contains_key(id) <==> client_name_for(all.take(i as int), id) is Some,
            forall|id: u32| #[trigger]
                clients@.contains_key(id) ==> client_name_for(all.take(i as int), id) == Some(
                    clients@[id]@,
                ),
    {
        assert(all.take(i + 1).drop_last() =~= all.take(i as int));
        assert(all.take(i + 1).last() == sources@[i as int]@);
        if text::equal_text(sources[i].object_type.as_str(), "Client")
            && sources[i].is_direct_spotify_match() {
            clients.insert(sources[i].id, sources[i].display_name().to_string());
        }
    }
    assert(all.take(sources@.len() as int) =~= all);
    clients
}

/// Links each source to its client, where that is one of the Spotify clients in the list.
pub fn resolve_spotify_links(sources: &mut Vec<DiscoveredSource>)
    ensures
        models(final(sources)@) == resolved(models(old(sources)@)),
{
    broadcast use vstd::std_specs::hash::group_hash_axioms;

    let clients: HashMap<u32, String> = spotify_clients(sources);
    let ghost all = models(sources@);
    let count: usize = sources.len();
    for i in 0..count
        invariant
            count == sources.len(),
            count == all.len(),
            forall|id: u32| #[trigger]
                clients@.contains_key(id) <==> client_name_for(all, id) is Some,
            forall|id: u32| #[trigger]
                clients@.contains_key(id) ==> client_name_for(all, id) == Some(clients@[id]@),
            forall|k: int| 0 <= k < i ==> (#[trigger] sources@[k])@ == link(all[k], all),
            forall|k: int| i <= k < count ==> (#[trigger] sources@[k])@ == all[k],
    {
        if let Some(client_id) = sources[i].client_id {
            if let Some(client_name) = clients.get(&client_id) {
                let name: String = client_name.clone();
                sources[i].linked_client_id = Some(client_id);
                sources[i].linked_client_name = Some(name);
            }
        }
        assert(sources@[i as int]@ =~= link(all[i as int], all));
    }
    assert(models(sources@) =~= resolved(all));
}

/// `a` comes before `b` in the order by object type and then by identifier.
pub open spec fn source_before(a: SourceModel, b: SourceModel) -> bool {
    ||| text::text_before(a.object_type, b.object_type)
    ||| a.object_type == b.object_type && a.id < b.id
}

/// No source in the list comes before one that stands in front of it.
pub open spec fn in_order(sources: Seq<SourceModel>) -> bool {
    forall|i: int, j: int|
        0 <= i < j < sources.len() ==> !source_before(#[trigger] sources[j], #[trigger] sources[i])
}

/// The sources with that object type and that identifier, in the order in which they stand.
pub open spec fn with_key(
    sources: Seq<SourceModel>,
    object_type: Seq<char>,
    id: u32,
) -> Seq<SourceModel> {
    sources.filter(|source: SourceModel| source.object_type == object_type && source.id == id)
}

/// `sorted` is `sources` in order, with sources of the same type and identifier left in the
/// order in which they stood.
pub open spec fn is_stable_sort(sorted: Seq<SourceModel>, sources: Seq<SourceModel>) -> bool {
    &&& in_order(sorted)
    &&& forall|object_type: Seq<char>, id: u32|
        with_key(sorted, object_type, id) == with_key(sources, object_type, id)
}

/// Whether `a` comes before `b` in the order by object type and then by identifier.
fn comes_before(a: &DiscoveredSource, b: &DiscoveredSource) -> (r: bool)
    ensures
        r == source_before(a@, b@),
{
    if text::text_comes_before(a.object_type.as_str(), b.object_type.as_str()) {
        true
    } else {
        text::equal_text(a.object_type.as_str(), b.object_type.as_str()) && a.id < b.id
    }
}

/// The order by object type and identifier is a total order.
proof fn lemma_source_order(a: SourceModel, b: SourceModel, c: SourceModel)
    ensures
        source_before(a, b) ==> !source_before(b, a),
        source_before(a, b) ==> source_before(a, c) || source_before(c, b),
{
    text::lemma_text_order(a.object_type, b.object_type, c.object_type);
    text::lemma_text_order(b.object_type, a.object_type, c.object_type);
    text::lemma_text_order(a.object_type, c.object_type, b.object_type);
    text::lemma_text_order(c.object_type, a.object_type, b.object_type);
}

/// Inserting a source in front of all those that it comes before keeps the list in order, and
/// puts it behind the others with its type and identifier.
proof fn lemma_insert_in_order(sorted: Seq<SourceModel>, at: int, source: SourceModel)
    requires
        in_order(sorted),
        0 <= at <= sorted.len(),
        at == 0 || !source_before(source, sorted[at - 1]),
        forall|k: int| at <= k < sorted.len() ==> source_before(source, #[trigger] sorted[k]),
    ensures
        in_order(sorted.insert(at, source)),
        forall|object_type: Seq<char>, id: u32|
            #![trigger with_key(sorted.insert(at, source), object_type, id)]
            with_key(sorted.insert(at, source), object_type, id) == with_key(
                sorted.push(source),
                object_type,
                id,
            ),
{
    let next = sorted.insert(at, source);
    assert forall|i: int, j: int| 0 <= i < j < next.len() implies !source_before(
        #[trigger] next[j],
        #[trigger] next[i],
    ) by {
        if j == at {
            if i < at - 1 {
                assert(!source_before(sorted[at - 1], sorted[i]));
            }
            lemma_source_order(source, next[i], sorted[at - 1]);
        } else if i == at {
            lemma_source_order(source, next[j], next[j]);
        } else {
            let oi = if i < at { i } else { i - 1 };
            let oj = if j < at { j } else { j - 1 };
            assert(next[i] == sorted[oi] && next[j] == sorted[oj]);
        }
    }
    let head = sorted.take(at);
    let tail = sorted.skip(at);
    assert(next =~= head + seq![source] + tail);
    assert(sorted.push(source) =~= head + tail + seq![source]);
    assert forall|object_type: Seq<char>, id: u32|
        #![trigger with_key(next, object_type, id)]
        with_key(next, object_type, id) == with_key(sorted.push(source), object_type, id) by {
        let pred = |m: SourceModel| m.object_type == object_type && m.id == id;
        Seq::filter_distributes_over_add(head + seq![source], tail, pred);
        Seq::filter_distributes_over_add(head, seq![source], pred);
        Seq::filter_distributes_over_add(head + tail, seq![source], pred);
        Seq::filter_distributes_over_add(head, tail, pred);
        reveal(Seq::filter);
        assert(seq![source].drop_last() =~= Seq::<SourceModel>::empty());
        if pred(source) {
            assert forall|k: int| 0 <= k < tail.len() implies !pred(#[trigger] tail[k]) by {
                assert(source_before(source, sorted[at + k]));
                text::lemma_text_order(object_type, object_type, object_type);
            }
            lemma_filter_none(tail, pred);
            assert(tail.filter(pred) =~= Seq::<SourceModel>::empty());
        } else {
            lemma_filter_none(seq![source], pred);
            assert(seq![source].filter(pred) =~= Seq::<SourceModel>::empty());
        }
        assert(next.filter(pred) =~= sorted.push(source).filter(pred));
    }
}

/// Nothing remains of a list of which no element passes.
proof fn lemma_filter_none(s: Seq<SourceModel>, pred: spec_fn(SourceModel) -> bool)
    requires
        forall|k: int| 0 <= k < s.len() ==> !pred(#[trigger] s[k]),
    ensures
        s.filter(pred).len() == 0,
    decreases s.len(),
{
    reveal(Seq::filter);
    if s.len() > 0 {
        lemma_filter_none(s.drop_last(), pred);
    }
}

/// The position at which a source goes into a sorted list: behind all that it does not come
/// before.
fn insertion_point(sorted: &Vec<DiscoveredSource>, source: &DiscoveredSource) -> (r: usize)
    requires
        in_order(models(sorted@)),
    ensures
        r <= sorted.len(),
        r == 0 || !source_before(source@, models(sorted@)[r - 1]),
        forall|k: int|
            r <= k < sorted.len() ==> source_before(source@, #[trigger] models(sorted@)[k]),
{
    let mut at: usize = sorted.len();
    while at > 0 && comes_before(source, &sorted[at - 1])
        invariant
            at <= sorted.len(),
            forall|k: int|
                at <= k < sorted.len() ==> source_before(source@, #[trigger] models(sorted@)[k]),
        decreases at,
    {
        at = at - 1;
    }
    at
}

/// The sources in order by object type and then by identifier.
pub fn sort_sources(sources: Vec<DiscoveredSource>) -> (r: Vec<DiscoveredSource>)
    ensures
        is_stable_sort(models(r@), models(sources@)),
{
    let mut sorted: Vec<DiscoveredSource> = Vec::new();
    let ghost all = models(sources@);
    assert(models(sorted@) =~= all.take(0));
    for i in 0..sources.len()
        invariant
            all == models(sources@),
            is_stable_sort(models(sorted@), all.take(i as int)),
    {
        let at: usize = insertion_point(&sorted, &sources[i]);
        let ghost before = models(sorted@);
        sorted.insert(at, sources[i].clone());
        proof {
            let source = all[i as int];
            lemma_insert_in_order(before, at as int, source);
            assert(models(sorted@) =~= before.insert(at as int, source));
            assert(all.take(i + 1) =~= all.take(i as int).push(source));
            assert forall|object_type: Seq<char>, id: u32|
                with_key(models(sorted@), object_type, id) == with_key(
                    all.take(i + 1),
                    object_type,
                    id,
                ) by {
                lemma_with_key_push(before, source, object_type, id);
                lemma_with_key_push(all.take(i as int), source, object_type, id);
                assert(with_key(before, object_type, id) == with_key(
                    all.take(i as int),
                    object_type,
                    id,
                ));
            }
        }
    }
    assert(all.take(sources@.len() as int) =~= all);
    sorted
}

/// What a source at the end of a list adds to those with a given key.
proof fn lemma_with_key_push(
    sources: Seq<SourceModel>,
    source: SourceModel,
    object_type: Seq<char>,
    id: u32,
)
    ensures
        with_key(sources.push(source), object_type, id) == if source.object_type == object_type
            && source.id == id {
            with_key(sources, object_type, id).push(source)
        } else {
            with_key(sources, object_type, id)
        },
{
    reveal(Seq::filter);
    assert(sources.push(source).drop_last() =~= sources);
}

/// The sources that the announced objects give, in the order of announcement.
pub open spec fn announced(globals: Seq<RegistryGlobal>) -> Seq<SourceModel> {
    globals.filter_map(|global: RegistryGlobal| global.source())
}

/// The sources that the announced objects give, in the order of announcement.
fn collect_sources(globals: &Vec<RegistryGlobal>) -> (r: Vec<DiscoveredSource>)
    ensures
        models(r@) == announced(globals@),
{
    let mut sources: Vec<DiscoveredSource> = Vec::new();
    let ghost give = |global: RegistryGlobal| global.source();
    assert(models(sources@) =~= globals@.take(0).filter_map(give));
    for i in 0..globals.len()
        invariant
            give == |global: RegistryGlobal| global.source(),
            models(sources@) == globals@.take(i as int).filter_map(give),
    {
        proof {
            assert(globals@.take(i + 1).drop_last() =~= globals@.take(i as int));
            assert(globals@.take(i + 1).last() == globals@[i as int]);
        }
        let ghost before = models(sources@);
        if let Some(source) = source_from_global(&globals[i]) {
            sources.push(source);
            assert(models(sources@) =~= before + seq![source@]);
        }
    }
    assert(globals@.take(globals@.len() as int) =~= globals@);
    sources
}

/// The list of discovered sources: what the announced objects give, each linked to its Spotify
/// client where it has one, in order by object type and identifier.
pub fn assemble_sources(globals: &Vec<RegistryGlobal>) -> (r: Vec<DiscoveredSource>)
    ensures
        is_stable_sort(models(r@), resolved(announced(globals@))),
{
    let mut sources: Vec<DiscoveredSource> = collect_sources(globals);
    resolve_spotify_links(&mut sources);
    sort_sources(sources)
}

/// Some source of the list is a Spotify client with that identifier.
pub open spec fn has_spotify_client(sources: Seq<SourceModel>, id: u32) -> bool {
    exists|i: int|
        0 <= i < sources.len() && (#[trigger] sources[i]).spotify_client() && sources[i].id == id
}

/// A client name is found exactly for the identifiers of Spotify clients.
proof fn lemma_client_found(sources: Seq<SourceModel>, id: u32)
    ensures
        client_name_for(sources, id) is Some <==> has_spotify_client(sources, id),
    decreases sources.len(),
{
    if sources.len() > 0 {
        let init = sources.drop_last();
        lemma_client_found(init, id);
        if has_spotify_client(init, id) {
            let i = choose|i: int|
                0 <= i < init.len() && (#[trigger] init[i]).spotify_client() && init[i].id == id;
            assert(sources[i] == init[i]);
        }
        if has_spotify_client(sources, id) && !(sources.last().spotify_client()
            && sources.last().id == id) {
            let i = choose|i: int|
                0 <= i < sources.len() && (#[trigger] sources[i]).spotify_client()
                    && sources[i].id == id;
            assert(init[i] == sources[i]);
        }
    }
}

/// A source is linked by its client identifier alone: it is linked to its client exactly when that
/// is a Spotify client of the list, or when it was linked before. Its own properties stay as they
/// are.
pub proof fn law_links_follow_client_ids(sources: Seq<SourceModel>, i: int)
    requires
        0 <= i < sources.len(),
    ensures
        resolved(sources)[i].linked_client_id == (if sources[i].client_id is Some
            && has_spotify_client(sources, sources[i].client_id->0) {
            sources[i].client_id
        } else {
            sources[i].linked_client_id
        }),
        resolved(sources)[i] == (SourceModel {
            linked_client_id: resolved(sources)[i].linked_client_id,
            linked_client_name: resolved(sources)[i].linked_client_name,
            ..sources[i]
        }),
        resolved(sources)[i].playback_stream() == sources[i].playback_stream(),
        resolved(sources)[i].direct_match() == sources[i].direct_match(),
{
    if sources[i].client_id is Some {
        lemma_client_found(sources, sources[i].client_id->0);
    }
}

/// Linking a list twice links no source to another client than linking it once.
pub proof fn law_linking_twice_changes_no_link(sources: Seq<SourceModel>, i: int)
    requires
        0 <= i < sources.len(),
    ensures
        resolved(resolved(sources))[i].linked_client_id == resolved(sources)[i].linked_client_id,
{
    let once = resolved(sources);
    law_links_follow_client_ids(sources, i);
    law_links_follow_client_ids(once, i);
    if sources[i].client_id is Some {
        let id = sources[i].client_id->0;
        if has_spotify_client(once, id) {
            let k = choose|k: int|
                0 <= k < once.len() && (#[trigger] once[k]).spotify_client() && once[k].id == id;
            law_links_follow_client_ids(sources, k);
            assert(sources[k].spotify_client() && sources[k].id == id);
        }
    }
}

/// How often a source stands in a list is how often it stands among those with its key.
proof fn lemma_count_with_key(sources: Seq<SourceModel>, source: SourceModel)
    ensures
        sources.to_multiset().count(source) == with_key(
            sources,
            source.object_type,
            source.id,
        ).to_multiset().count(source),
    decreases sources.len(),
{
    broadcast use vstd::seq_lib::group_to_multiset_ensures;

    reveal(Seq::filter);
    if sources.len() > 0 {
        let init = sources.drop_last();
        lemma_count_with_key(init, source);
        lemma_with_key_push(init, sources.last(), source.object_type, source.id);
        assert(init.push(sources.last()) =~= sources);
        assert(sources.to_multiset() == init.to_multiset().insert(sources.last()));
        let kept = with_key(init, source.object_type, source.id);
        assert(kept.push(sources.last()).to_multiset() == kept.to_multiset().insert(
            sources.last(),
        ));
    } else {
        assert(with_key(sources, source.object_type, source.id) =~= sources);
    }
}

/// Sorting loses no source and adds none.
pub proof fn law_sorting_keeps_the_sources(sorted: Seq<SourceModel>, sources: Seq<SourceModel>)
    requires
        is_stable_sort(sorted, sources),
    ensures
        sorted.to_multiset() == sources.to_multiset(),
{
    assert forall|source: SourceModel|
        sorted.to_multiset().count(source) == sources.to_multiset().count(source) by {
        lemma_count_with_key(sorted, source);
        lemma_count_with_key(sources, source);
        assert(with_key(sorted, source.object_type, source.id) == with_key(
            sources,
            source.object_type,
            source.id,
        ));
    }
    assert(sorted.to_multiset() =~= sources.to_multiset());
}

/// What an announced object gives stands in the list of announced sources.
proof fn lemma_announced(globals: Seq<RegistryGlobal>, i: int)
    requires
        0 <= i < globals.len(),
        globals[i].source() is Some,
    ensures
        announced(globals).contains(globals[i].source()->0),
    decreases globals.len(),
{
    let init = globals.drop_last();
    let wanted = globals[i].source()->0;
    let all = announced(globals);
    assert(globals.last() == globals[globals.len() - 1]);
    if i == globals.len() - 1 {
        assert(all.last() == wanted);
        assert(all[all.len() - 1] == wanted);
    } else {
        lemma_announced(init, i);
        let k = choose|k: int| 0 <= k < announced(init).len() && announced(init)[k] == wanted;
        assert(all[k] == wanted);
    }
}

/// A playback stream whose client is an announced Spotify client is in the assembled list, linked
/// to that client, and can be captured, whatever its own names are.
pub proof fn law_streams_of_spotify_clients_are_found(
    globals: Seq<RegistryGlobal>,
    assembled: Seq<DiscoveredSource>,
    client: int,
    stream: int,
)
    requires
        is_stable_sort(models(assembled), resolved(announced(globals))),
        0 <= client < globals.len(),
        globals[client].source() is Some,
        globals[client].source()->0.spotify_client(),
        0 <= stream < globals.len(),
        globals[stream].source() is Some,
        globals[stream].source()->0.playback_stream(),
        globals[stream].source()->0.client_id == Some(globals[client].id),
    ensures
        exists|i: int|
            0 <= i < assembled.len() && (#[trigger] assembled[i])@.eligible()
                && assembled[i]@.linked_client_id == Some(globals[client].id) && assembled[i].id
                == globals[stream].id,
{
    broadcast use vstd::seq_lib::group_to_multiset_ensures;

    let listed = announced(globals);
    lemma_announced(globals, client);
    lemma_announced(globals, stream);
    let c = choose|c: int|
        0 <= c < listed.len() && listed[c] == globals[client].source()->0;
    let s = choose|s: int|
        0 <= s < listed.len() && listed[s] == globals[stream].source()->0;
    assert(listed[c].spotify_client() && listed[c].id == globals[client].id);
    assert(has_spotify_client(listed, globals[client].id));
    law_links_follow_client_ids(listed, s);
    let linked = resolved(listed)[s];
    assert(linked.eligible());
    law_sorting_keeps_the_sources(models(assembled), resolved(listed));
    assert(resolved(listed).contains(linked));
    assert(resolved(listed).to_multiset().count(linked) > 0);
    assert(models(assembled).contains(linked));
    let i = choose|i: int| 0 <= i < models(assembled).len() && models(assembled)[i] == linked;
    assert(assembled[i]@ == linked);
}

/// Of several properties with one key the first counts, wherever it stands.
pub proof fn law_the_first_property_counts(props: Seq<Property>, key: Seq<char>, i: int)
    requires
        0 <= i < props.len(),
        props[i].key@ == key,
        forall|j: int| 0 <= j < i ==> (#[trigger] props[j]).key@ != key,
    ensures
        lookup(props, key) == Some(props[i].value@),
    decreases i,
{
    if i > 0 {
        assert(props[0].key@ != key);
        let rest = props.drop_first();
        assert forall|j: int| 0 <= j < i - 1 implies (#[trigger] rest[j]).key@ != key by {
            assert(rest[j] == props[j + 1]);
        }
        law_the_first_property_counts(rest, key, i - 1);
    }
}

/// A key that no property has is not found.
pub proof fn law_missing_properties_are_not_found(props: Seq<Property>, key: Seq<char>)
    requires
        forall|j: int| 0 <= j < props.len() ==> (#[trigger] props[j]).key@ != key,
    ensures
        lookup(props, key) is None,
    decreases props.len(),
{
    if props.len() > 0 {
        assert(props[0].key@ != key);
        let rest = props.drop_first();
        assert forall|j: int| 0 <= j < rest.len() implies (#[trigger] rest[j]).key@ != key by {
            assert(rest[j] == props[j + 1]);
        }
        law_missing_properties_are_not_found(rest, key);
    }
}

/// What a property holds is taken as it is: as text unless it is blank, and as a number where it is
/// one. An object without properties has none of them.
pub proof fn law_properties_are_taken_as_they_are(
    global: RegistryGlobal,
    key: Seq<char>,
    other: Seq<char>,
    max: nat,
)
    ensures
        global.props is None ==> global.raw_property(key) is None,
        global.props is Some ==> global.raw_property(key) == lookup(global.props->0@, key),
        match global.raw_property(key) {
            None => {
                &&& global.text_property(key) is None
                &&& global.number_property(key, max) is None
                &&& global.either_property(key, other) == global.text_property(other)
            },
            Some(value) => {
                &&& global.number_property(key, max) == text::unsigned_value(value, max)
                &&& text::trim(value).len() > 0 ==> global.text_property(key) == Some(value)
                    && global.either_property(key, other) == Some(value)
                &&& text::trim(value).len() == 0 ==> global.text_property(key) is None
                    && global.either_property(key, other) == global.text_property(other)
            },
        },
{
    if global.raw_property(key) is Some {
        let value = global.raw_property(key)->0;
        if value.len() > 0 {
            text::law_blank_texts(value, 0);
        } else {
            text::lemma_trim_blank(value);
        }
    }
}

/// Each part of a source comes from the property of that name.
pub proof fn law_sources_hold_the_properties_of_their_object(global: RegistryGlobal)
    ensures
        ({
            let s = global.described();
            &&& s.id == global.id
            &&& s.object_type == global.object_type.name()
            &&& match global.number_property("object.serial"@, u64::MAX as nat) {
                Some(n) => s.object_serial is Some && s.object_serial->0 == n,
                None => s.object_serial is None,
            }
            &&& match global.number_property("client.id"@, u32::MAX as nat) {
                Some(n) => s.client_id is Some && s.client_id->0 == n,
                None => s.client_id is None,
            }
            &&& s.linked_client_id is None && s.linked_client_name is None
            &&& s.node_name == global.text_property("node.name"@)
            &&& s.node_description == global.text_property("node.description"@)
            &&& s.application_name == global.text_property("application.name"@)
            &&& s.application_process_binary == global.text_property("application.process.binary"@)
            &&& s.client_name == global.either_property("client.name"@, "application.name"@)
            &&& s.media_name == global.text_property("media.name"@)
            &&& s.media_class == global.text_property("media.class"@)
            &&& s.media_role == global.text_property("media.role"@)
            &&& s.media_category == global.text_property("media.category"@)
            &&& s.media_type == global.text_property("media.type"@)
            &&& s.target_object == global.either_property("target.object"@, "target.node"@)
            &&& s.node_target == global.text_property("node.target"@)
        }),
{
}

/// An object gives a source exactly if it is of one of five types, and is a client or says
/// something of audio, of Spotify, of its client or of what it is connected to.
pub proof fn law_objects_that_give_sources(global: RegistryGlobal)
    ensures
        ({
            let s = global.described();
            let told = global.object_type is Client || s.audio_relevant() || s.direct_match()
                || s.client_id is Some || s.target_object is Some || s.node_target is Some;
            &&& global.object_type is Other ==> global.source() is None
            &&& !(global.object_type is Other) && told ==> global.source() == Some(s)
            &&& !told ==> global.source() is None
        }),
{
    reveal_strlit("Client");
    reveal_strlit("Node");
    reveal_strlit("ClientNode");
    reveal_strlit("ClientSession");
    reveal_strlit("EndpointStream");
    assert("Client"@.len() == 6);
    assert("Node"@.len() == 4);
    assert("ClientNode"@.len() == 10);
    assert("ClientSession"@.len() == 13);
    assert("EndpointStream"@.len() == 14);
}

/// The name that a linked source gets is that of its client; of several clients with one
/// identifier it is that of the last.
pub proof fn law_links_name_the_last_client(sources: Seq<SourceModel>, i: int, client: int)
    requires
        0 <= i < sources.len(),
        0 <= client < sources.len(),
        sources[client].object_type == "Client"@,
        sources[client].direct_match(),
        sources[i].client_id == Some(sources[client].id),
        forall|k: int|
            client < k < sources.len() ==> !((#[trigger] sources[k]).spotify_client()
                && sources[k].id == sources[client].id),
    ensures
        resolved(sources).len() == sources.len(),
        resolved(sources)[i].linked_client_id == Some(sources[client].id),
        resolved(sources)[i].linked_client_name == Some(sources[client].shown_name()),
{
    lemma_last_client(sources, client);
}

/// The name that is found for an identifier is that of the last client with it.
proof fn lemma_last_client(sources: Seq<SourceModel>, client: int)
    requires
        0 <= client < sources.len(),
        sources[client].spotify_client(),
        forall|k: int|
            client < k < sources.len() ==> !((#[trigger] sources[k]).spotify_client()
                && sources[k].id == sources[client].id),
    ensures
        client_name_for(sources, sources[client].id) == Some(sources[client].shown_name()),
    decreases sources.len(),
{
    let last = sources.len() - 1;
    if client < last {
        assert(!(sources[last].spotify_client() && sources[last].id == sources[client].id));
        let init = sources.drop_last();
        assert forall|k: int| client < k < init.len() implies !((
        #[trigger] init[k]).spotify_client() && init[k].id == init[client].id) by {
            assert(init[k] == sources[k]);
        }
        lemma_last_client(init, client);
    }
}

/// A source without a client among the Spotify clients of the list stays as it is.
pub proof fn law_other_sources_are_not_linked(sources: Seq<SourceModel>, i: int)
    requires
        0 <= i < sources.len(),
        sources[i].client_id is None || forall|k: int|
            0 <= k < sources.len() ==> !((#[trigger] sources[k]).object_type == "Client"@
                && sources[k].direct_match() && sources[k].id == sources[i].client_id->0),
    ensures
        resolved(sources)[i] == sources[i],
{
    if sources[i].client_id is Some {
        lemma_client_found(sources, sources[i].client_id->0);
    }
}

/// A sorted list goes by the object type and then by the identifier, and keeps the order of what
/// agrees in both.
pub proof fn law_sorted_lists_go_by_type_and_id(
    sorted: Seq<SourceModel>,
    sources: Seq<SourceModel>,
    i: int,
    j: int,
    object_type: Seq<char>,
    id: u32,
)
    requires
        is_stable_sort(sorted, sources),
        0 <= i < j < sorted.len(),
    ensures
        !text::text_before(sorted[j].object_type, sorted[i].object_type),
        sorted[i].object_type == sorted[j].object_type ==> sorted[i].id <= sorted[j].id,
        sorted.filter(|s: SourceModel| s.object_type == object_type && s.id == id)
            == sources.filter(|s: SourceModel| s.object_type == object_type && s.id == id),
{
    assert(!source_before(sorted[j], sorted[i]));
    let pred = |s: SourceModel| s.object_type == object_type && s.id == id;
    let key = |source: SourceModel| source.object_type == object_type && source.id == id;
    assert(pred =~= key);
    assert(with_key(sorted, object_type, id) == with_key(sources, object_type, id));
}

/// The sources of objects announced one after the other stand one after the other, each object
/// giving its source or nothing.
pub proof fn law_sources_come_as_announced(
    a: Seq<RegistryGlobal>,
    b: Seq<RegistryGlobal>,
    global: RegistryGlobal,
)
    ensures
        announced(a + b) == announced(a) + announced(b),
        announced(Seq::empty()) == Seq::<SourceModel>::empty(),
        announced(seq![global]) == (match global.source() {
            Some(source) => seq![source],
            None => Seq::empty(),
        }),
    decreases b.len(),
{
    let give = |global: RegistryGlobal| global.source();
    assert(seq![global].drop_last() =~= Seq::<RegistryGlobal>::empty());
    assert(announced(seq![global].drop_last()) =~= Seq::<SourceModel>::empty());
    assert(announced(seq![global]) =~= match global.source() {
        Some(source) => seq![source],
        None => Seq::empty(),
    });
    if b.len() == 0 {
        assert(a + b =~= a);
        assert(announced(b) =~= Seq::<SourceModel>::empty());
        assert(announced(a) + announced(b) =~= announced(a));
    } else {
        law_sources_come_as_announced(a, b.drop_last(), global);
        assert((a + b).drop_last() =~= a + b.drop_last());
        assert((a + b).last() == b.last());
        assert(announced(a + b) =~= announced(a) + announced(b));
    }
}

/// The models of sources show each source at its place.
pub proof fn law_sources_are_shown_in_place(sources: Seq<DiscoveredSource>, i: int)
    requires
        0 <= i < sources.len(),
    ensures
        models(sources).len() == sources.len(),
        models(sources)[i] == sources[i]@,
{
}

/// The names of the types that can be sources, and of any other type its own.
pub proof fn law_types_by_name(name: String)
    ensures
        ObjectType::Node.name() == "Node"@ && ObjectType::Node.relevant(),
        ObjectType::Client.name() == "Client"@ && ObjectType::Client.relevant(),
        ObjectType::ClientNode.name() == "ClientNode"@ && ObjectType::ClientNode.relevant(),
        ObjectType::ClientSession.name() == "ClientSession"@
            && ObjectType::ClientSession.relevant(),
        ObjectType::EndpointStream.name() == "EndpointStream"@
            && ObjectType::EndpointStream.relevant(),
        ObjectType::Other(name).name() == name@ && !ObjectType::Other(name).relevant(),
{
}

} // verus!
