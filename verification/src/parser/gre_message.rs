//! `greToClientEvent` blocks: the game rules engine's messages to the client.
//!
//! `GreParser` follows the zones and game objects of the current game so
//! that zone transfers can be told apart (a cast from the command zone, a
//! card exiled face down) and counts commander casts for the commander tax.

use vstd::prelude::*;
use std::collections::HashMap;
use crate::events::{DeckCard, GameEvent, GameEventView, Zone, append_events, events_view};
use crate::json::{
    JsonValue, array_of, deref_opt, field, first_i64, first_of, first_u64, i64_of, json_stream,
    parse_stream, str_of, u64_of, vec_opt_view,
};
use crate::text::str_eq;

verus! {

broadcast use vstd::std_specs::hash::group_hash_axioms;

/// `x + 1` on a `u8`, wrapping at 256 as a release build does.
pub open spec fn inc_u8(x: u8) -> u8 {
    if x == 255 {
        0
    } else {
        (x + 1) as u8
    }
}

/// `x * 2` on a `u8`, wrapping at 256 as a release build does.
pub open spec fn double_u8(x: u8) -> u8 {
    ((x * 2) % 256) as u8
}

/// `x + 1` on a `u32`, wrapping as a release build does.
pub open spec fn inc_u32(x: u32) -> u32 {
    if x == u32::MAX {
        0
    } else {
        (x + 1) as u32
    }
}

fn inc_u8_exec(x: u8) -> (r: u8)
    ensures
        r == inc_u8(x),
{
    if x == 255 {
        0
    } else {
        x + 1
    }
}

fn double_u8_exec(x: u8) -> (r: u8)
    ensures
        r == double_u8(x),
{
    ((x as u16 * 2) % 256) as u8
}

fn inc_u32_exec(x: u32) -> (r: u32)
    ensures
        r == inc_u32(x),
{
    if x == u32::MAX {
        0
    } else {
        x + 1
    }
}

/// What the parser knows of the current game.
pub struct GreModel {
    /// zoneId → (zone type name, owner seat); rebuilt on each full snapshot.
    pub zones: Map<u32, (Seq<char>, u8)>,
    /// instanceId → grpId (the card).
    pub instances: Map<u32, u32>,
    /// instanceId → visibility name.
    pub visibility: Map<u32, Seq<char>>,
    /// instanceId → the card's owner seat.
    pub owners: Map<u32, u8>,
    /// The current game of the match, from 1.
    pub game_number: u8,
    /// grpId → times cast from the command zone this match.
    pub commander_casts: Map<u32, u8>,
    /// (seat, grpId) of the commanders already announced.
    pub known_commanders: Set<(u8, u32)>,
    /// Who plays first has been reported for this match.
    pub played_first_reported: bool,
}

impl GreModel {
    /// The state at the start of a match.
    pub open spec fn initial() -> GreModel {
        GreModel {
            zones: Map::empty(),
            instances: Map::empty(),
            visibility: Map::empty(),
            owners: Map::empty(),
            game_number: 1,
            commander_casts: Map::empty(),
            known_commanders: Set::empty(),
            played_first_reported: false,
        }
    }
}

/// The state with its zone and object maps emptied.
pub open spec fn maps_cleared(s: GreModel) -> GreModel {
    GreModel {
        zones: Map::empty(),
        instances: Map::empty(),
        visibility: Map::empty(),
        owners: Map::empty(),
        ..s
    }
}

/// Records one entry of a game state's `zones`.
pub open spec fn zone_step(s: GreModel, zone: JsonValue) -> GreModel {
    match (u64_of(zone.spec_get("zoneId"@)), str_of(zone.spec_get("type"@))) {
        (Some(id), Some(t)) => {
            let owner = match u64_of(zone.spec_get("ownerSeatId"@)) {
                Some(o) => o,
                None => 0,
            };
            GreModel { zones: s.zones.insert(id as u32, (t, owner as u8)), ..s }
        },
        _ => s,
    }
}

pub open spec fn zones_fold(s: GreModel, zs: Seq<JsonValue>) -> GreModel
    decreases zs.len(),
{
    if zs.len() == 0 {
        s
    } else {
        zone_step(zones_fold(s, zs.drop_last()), zs.last())
    }
}

/// Records one entry of a game state's `gameObjects`.
pub open spec fn object_step(s: GreModel, obj: JsonValue) -> GreModel {
    match u64_of(obj.spec_get("instanceId"@)) {
        Some(iid) => {
            let id = iid as u32;
            let instances = match u64_of(obj.spec_get("grpId"@)) {
                Some(g) => s.instances.insert(id, g as u32),
                None => s.instances,
            };
            let owners = match u64_of(obj.spec_get("ownerSeatId"@)) {
                Some(o) => s.owners.insert(id, o as u8),
                None => s.owners,
            };
            let vis = match str_of(obj.spec_get("visibility"@)) {
                Some(v) => v,
                None => "Visibility_Public"@,
            };
            GreModel { instances, owners, visibility: s.visibility.insert(id, vis), ..s }
        },
        None => s,
    }
}

pub open spec fn objects_fold(s: GreModel, os: Seq<JsonValue>) -> GreModel
    decreases os.len(),
{
    if os.len() == 0 {
        s
    } else {
        object_step(objects_fold(s, os.drop_last()), os.last())
    }
}

/// The maps updated with a game state's zones and then its objects.
pub open spec fn maps_updated(s: GreModel, gs: JsonValue) -> GreModel {
    let s1 = match array_of(gs.spec_get("zones"@)) {
        Some(zs) => zones_fold(s, zs),
        None => s,
    };
    match array_of(gs.spec_get("gameObjects"@)) {
        Some(os) => objects_fold(s1, os),
        None => s1,
    }
}

/// Announces a commander seen in a Command zone, once per seat and card.
pub open spec fn commander_step(s: GreModel, obj: JsonValue) -> (GreModel, Seq<GameEventView>) {
    match u64_of(obj.spec_get("zoneId"@)) {
        Some(z) => {
            let zid = z as u32;
            if s.zones.contains_key(zid) && s.zones[zid].0 == "ZoneType_Command"@ {
                match (u64_of(obj.spec_get("grpId"@)), u64_of(obj.spec_get("ownerSeatId"@))) {
                    (Some(g), Some(o)) => {
                        let key = (o as u8, g as u32);
                        if s.known_commanders.contains(key) {
                            (s, Seq::empty())
                        } else {
                            (
                                GreModel {
                                    known_commanders: s.known_commanders.insert(key),
                                    ..s
                                },
                                seq![
                                    GameEventView::CommanderRevealed {
                                        card_id: g as u32,
                                        seat_id: o as u8,
                                    },
                                ],
                            )
                        }
                    },
                    _ => (s, Seq::empty()),
                }
            } else {
                (s, Seq::empty())
            }
        },
        None => (s, Seq::empty()),
    }
}

pub open spec fn commanders_fold(s: GreModel, os: Seq<JsonValue>) -> (GreModel, Seq<GameEventView>)
    decreases os.len(),
{
    if os.len() == 0 {
        (s, Seq::empty())
    } else {
        let (s1, e1) = commanders_fold(s, os.drop_last());
        let (s2, e2) = commander_step(s1, os.last());
        (s2, e1 + e2)
    }
}

/// The commanders announced for a game state's objects.
pub open spec fn commanders_of(s: GreModel, gs: JsonValue) -> (GreModel, Seq<GameEventView>) {
    match array_of(gs.spec_get("gameObjects"@)) {
        Some(os) => commanders_fold(s, os),
        None => (s, Seq::empty()),
    }
}

/// Some entry of `types` is the string `name`.
pub open spec fn has_type(types: Seq<JsonValue>, name: Seq<char>) -> bool {
    exists|i: int| 0 <= i < types.len() && #[trigger] types[i].spec_as_str() == Some(name)
}

/// The integer of a `details` entry whose key is `key`.
pub open spec fn detail_int(d: JsonValue, key: Seq<char>) -> Option<i64> {
    if str_of(d.spec_get("key"@)) == Some(key) {
        i64_of(first_of(array_of(d.spec_get("valueInt32"@))))
    } else {
        None
    }
}

/// The first integer at or after `i` that a `details` entry keyed `key` gives.
pub open spec fn int_detail_from(details: Seq<JsonValue>, key: Seq<char>, i: int) -> Option<i64>
    decreases details.len() - i,
{
    if i < 0 || i >= details.len() {
        None
    } else {
        match detail_int(details[i], key) {
            Some(x) => Some(x),
            None => int_detail_from(details, key, i + 1),
        }
    }
}

/// The `OldIds` list of a shuffle's `details` entry.
pub open spec fn old_ids_of(d: JsonValue) -> Option<Seq<JsonValue>> {
    if str_of(d.spec_get("key"@)) == Some("OldIds"@) {
        array_of(d.spec_get("valueInt32"@))
    } else {
        None
    }
}

pub open spec fn old_ids_from(details: Seq<JsonValue>, i: int) -> Option<Seq<JsonValue>>
    decreases details.len() - i,
{
    if i < 0 || i >= details.len() {
        None
    } else {
        match old_ids_of(details[i]) {
            Some(ids) => Some(ids),
            None => old_ids_from(details, i + 1),
        }
    }
}

/// Forgets one instance that a shuffle made stale.
pub open spec fn forget_step(s: GreModel, id: JsonValue) -> GreModel {
    match id.spec_as_u64() {
        Some(x) => {
            let k = x as u32;
            GreModel {
                instances: s.instances.remove(k),
                visibility: s.visibility.remove(k),
                owners: s.owners.remove(k),
                ..s
            }
        },
        None => s,
    }
}

pub open spec fn forget_fold(s: GreModel, ids: Seq<JsonValue>) -> GreModel
    decreases ids.len(),
{
    if ids.len() == 0 {
        s
    } else {
        forget_step(forget_fold(s, ids.drop_last()), ids.last())
    }
}

/// The seat of a shuffle annotation: its first affected id, or 0.
pub open spec fn shuffle_seat(ann: JsonValue) -> u8 {
    match u64_of(first_of(array_of(ann.spec_get("affectedIds"@)))) {
        Some(x) => x as u8,
        None => 0,
    }
}

/// A shuffle annotation: forget the stale instances and report the shuffle.
pub open spec fn shuffle_step(s: GreModel, ann: JsonValue) -> (GreModel, Seq<GameEventView>) {
    match array_of(ann.spec_get("details"@)) {
        Some(details) => {
            let s1 = match old_ids_from(details, 0) {
                Some(ids) => forget_fold(s, ids),
                None => s,
            };
            (s1, seq![GameEventView::LibraryShuffle { seat_id: shuffle_seat(ann) }])
        },
        None => (s, Seq::empty()),
    }
}

/// The number of casts of `card` once one more is counted.
pub open spec fn next_cast_count(casts: Map<u32, u8>, card: u32) -> u8 {
    if casts.contains_key(card) {
        inc_u8(casts[card])
    } else {
        1
    }
}

/// The seat a moved instance belongs to: its own owner where known and not
/// 0, else the owner of the zone it left.
pub open spec fn moved_owner(s: GreModel, iid: u32, src_owner: u8) -> u8 {
    if s.owners.contains_key(iid) && s.owners[iid] != 0 {
        s.owners[iid]
    } else {
        src_owner
    }
}

/// A card moved into exile while not public.
pub open spec fn moved_face_down(s: GreModel, iid: u32, dst_type: Seq<char>) -> bool {
    dst_type == "ZoneType_Exile"@ && s.visibility.contains_key(iid) && s.visibility[iid]
        != "Visibility_Public"@
}

/// The events of a zone transfer of instance `iid` (card `card`) from a zone
/// of type `src_type` owned by `src_owner` to a zone of type `dst_type`.
pub open spec fn transfer_outcome(
    s: GreModel,
    iid: u32,
    card: u32,
    src_type: Seq<char>,
    src_owner: u8,
    dst_type: Seq<char>,
) -> (GreModel, Seq<GameEventView>) {
    let owner = moved_owner(s, iid, src_owner);
    let moved = GameEventView::ZoneChanged {
        instance_id: iid,
        card_id: card,
        from_zone: Zone::of_name(src_type),
        to_zone: Zone::of_name(dst_type),
        owner_seat_id: owner,
        face_down: moved_face_down(s, iid, dst_type),
    };
    let cast = src_type == "ZoneType_Command"@ && dst_type == "ZoneType_Stack"@;
    let count = next_cast_count(s.commander_casts, card);
    let s1 = if cast {
        GreModel { commander_casts: s.commander_casts.insert(card, count), ..s }
    } else {
        s
    };
    let e1 = if cast {
        seq![
            moved,
            GameEventView::CommanderCast {
                card_id: card,
                seat_id: owner,
                cast_count: count,
                tax: double_u8(count),
            },
        ]
    } else {
        seq![moved]
    };
    let returned = dst_type == "ZoneType_Command"@ && (src_type == "ZoneType_Graveyard"@
        || src_type == "ZoneType_Exile"@) && s1.commander_casts.contains_key(card);
    (
        s1,
        if returned {
            e1.push(GameEventView::CommanderReturned { card_id: card, seat_id: owner })
        } else {
            e1
        },
    )
}

/// A zone-transfer annotation.
pub open spec fn transfer_step(s: GreModel, ann: JsonValue) -> (GreModel, Seq<GameEventView>) {
    match (
        u64_of(first_of(array_of(ann.spec_get("affectedIds"@)))),
        array_of(ann.spec_get("details"@)),
    ) {
        (Some(iid64), Some(details)) => match (
            int_detail_from(details, "zone_src"@, 0),
            int_detail_from(details, "zone_dest"@, 0),
        ) {
            (Some(src64), Some(dst64)) => {
                let iid = iid64 as u32;
                let src = src64 as u32;
                let dst = dst64 as u32;
                if s.zones.contains_key(src) && s.zones.contains_key(dst)
                    && s.instances.contains_key(iid) {
                    transfer_outcome(
                        s,
                        iid,
                        s.instances[iid],
                        s.zones[src].0,
                        s.zones[src].1,
                        s.zones[dst].0,
                    )
                } else {
                    (s, Seq::empty())
                }
            },
            _ => (s, Seq::empty()),
        },
        _ => (s, Seq::empty()),
    }
}

/// One annotation of a game state: a zone transfer or a shuffle.
pub open spec fn annotation_step(s: GreModel, ann: JsonValue) -> (GreModel, Seq<GameEventView>) {
    match array_of(ann.spec_get("type"@)) {
        Some(types) => if has_type(types, "AnnotationType_ZoneTransfer"@) {
            transfer_step(s, ann)
        } else if has_type(types, "AnnotationType_Shuffle"@) {
            shuffle_step(s, ann)
        } else {
            (s, Seq::empty())
        },
        None => (s, Seq::empty()),
    }
}

pub open spec fn annotations_fold(s: GreModel, anns: Seq<JsonValue>) -> (
    GreModel,
    Seq<GameEventView>,
)
    decreases anns.len(),
{
    if anns.len() == 0 {
        (s, Seq::empty())
    } else {
        let (s1, e1) = annotations_fold(s, anns.drop_last());
        let (s2, e2) = annotation_step(s1, anns.last());
        (s2, e1 + e2)
    }
}

/// The events of a game state's annotations.
pub open spec fn annotations_of(s: GreModel, gs: JsonValue) -> (GreModel, Seq<GameEventView>) {
    match array_of(gs.spec_get("annotations"@)) {
        Some(anns) => annotations_fold(s, anns),
        None => (s, Seq::empty()),
    }
}

/// The grpIds of the objects among `os` that seat `seat` owns and that lie
/// in a zone of type `ztype`, in the order of `os`.
pub open spec fn seat_cards(
    zones: Map<u32, (Seq<char>, u8)>,
    os: Seq<JsonValue>,
    seat: u8,
    ztype: Seq<char>,
) -> Seq<u32>
    decreases os.len(),
{
    if os.len() == 0 {
        Seq::empty()
    } else {
        let rest = seat_cards(zones, os.drop_last(), seat, ztype);
        let o = os.last();
        match (
            u64_of(o.spec_get("zoneId"@)),
            u64_of(o.spec_get("grpId"@)),
            u64_of(o.spec_get("ownerSeatId"@)),
        ) {
            (Some(z), Some(g), Some(w)) => if zones.contains_key(z as u32) && zones[z as u32].0
                == ztype && w as u8 == seat {
                rest.push(g as u32)
            } else {
                rest
            },
            _ => rest,
        }
    }
}

/// The card on top of a library zone, when its first instance is known.
pub open spec fn library_top(s: GreModel, zone: JsonValue) -> Option<u32> {
    match u64_of(first_of(array_of(zone.spec_get("objectInstanceIds"@)))) {
        Some(i) => if s.instances.contains_key(i as u32) {
            Some(s.instances[i as u32])
        } else {
            None
        },
        None => None,
    }
}

/// The `ZoneStateSync` of a snapshot zone that is a library: its owner's
/// cards in hand, on the battlefield, in the graveyard, in exile and on the
/// stack, and the top of the library when known.
pub open spec fn zone_sync(s: GreModel, os: Seq<JsonValue>, zone: JsonValue) -> Option<
    GameEventView,
> {
    if str_of(zone.spec_get("type"@)) == Some("ZoneType_Library"@) {
        let seat = match u64_of(zone.spec_get("ownerSeatId"@)) {
            Some(o) => o as u8,
            None => 0,
        };
        Some(
            GameEventView::ZoneStateSync {
                seat_id: seat,
                hand: seat_cards(s.zones, os, seat, "ZoneType_Hand"@),
                battlefield: seat_cards(s.zones, os, seat, "ZoneType_Battlefield"@),
                graveyard: seat_cards(s.zones, os, seat, "ZoneType_Graveyard"@),
                exile: seat_cards(s.zones, os, seat, "ZoneType_Exile"@),
                stack: seat_cards(s.zones, os, seat, "ZoneType_Stack"@),
                top_of_library: library_top(s, zone),
            },
        )
    } else {
        None
    }
}

pub open spec fn syncs_fold(s: GreModel, os: Seq<JsonValue>, zs: Seq<JsonValue>) -> Seq<
    GameEventView,
>
    decreases zs.len(),
{
    if zs.len() == 0 {
        Seq::empty()
    } else {
        syncs_fold(s, os, zs.drop_last()) + opt_events(zone_sync(s, os, zs.last()))
    }
}

/// The objects of a game state, none when it lists none.
pub open spec fn objects_of(gs: JsonValue) -> Seq<JsonValue> {
    match array_of(gs.spec_get("gameObjects"@)) {
        Some(os) => os,
        None => Seq::empty(),
    }
}

/// One `ZoneStateSync` per library zone of a full snapshot, in the order of
/// its zones.
pub open spec fn zone_syncs_of(s: GreModel, gs: JsonValue) -> Seq<GameEventView> {
    match array_of(gs.spec_get("zones"@)) {
        Some(zs) => syncs_fold(s, objects_of(gs), zs),
        None => Seq::empty(),
    }
}

/// `PlayedFirst` with the active seat when turn 1 of game 1 is under way,
/// once per match.
pub open spec fn played_first_step(s: GreModel, gs: JsonValue) -> (GreModel, Seq<GameEventView>) {
    let ti = gs.spec_get("turnInfo"@);
    match (u64_of(field(ti, "turnNumber"@)), u64_of(field(ti, "activePlayer"@))) {
        (Some(t), Some(a)) => if t == 1 && s.game_number == 1 && !s.played_first_reported {
            (
                GreModel { played_first_reported: true, ..s },
                seq![GameEventView::PlayedFirst { seat_id: a as u8 }],
            )
        } else {
            (s, Seq::empty())
        },
        _ => (s, Seq::empty()),
    }
}

/// A `GameStateMessage`. A full snapshot rebuilds the maps, reports new
/// commanders and then one `ZoneStateSync` per library; a diff updates the
/// maps, reports new commanders and then the annotations. Either ends with
/// `PlayedFirst` when it shows turn 1 of game 1 for the first time.
pub open spec fn game_state_step(s: GreModel, msg: JsonValue) -> (GreModel, Seq<GameEventView>) {
    match msg.spec_get("gameStateMessage"@) {
        Some(gs) => {
            let update_type = match str_of(gs.spec_get("type"@)) {
                Some(t) => t,
                None => ""@,
            };
            if update_type == "GameStateType_Full"@ {
                let (s2, e2) = commanders_of(maps_updated(maps_cleared(s), gs), gs);
                let e3 = zone_syncs_of(s2, gs);
                let (s4, e4) = played_first_step(s2, gs);
                (s4, e2 + e3 + e4)
            } else {
                let (s2, e2) = commanders_of(maps_updated(s, gs), gs);
                let (s3, e3) = annotations_of(s2, gs);
                let (s4, e4) = played_first_step(s3, gs);
                (s4, e2 + e3 + e4)
            }
        },
        None => (s, Seq::empty()),
    }
}

/// The position of `id` in a deck list.
pub open spec fn position_from(cards: Seq<DeckCard>, id: u32, i: int) -> Option<int>
    decreases cards.len() - i,
{
    if i < 0 || i >= cards.len() {
        None
    } else if cards[i].card_id == id {
        Some(i)
    } else {
        position_from(cards, id, i + 1)
    }
}

/// Counts one entry of a flat card list.
pub open spec fn count_step(cards: Seq<DeckCard>, v: JsonValue) -> Seq<DeckCard> {
    match v.spec_as_u64() {
        Some(x) => {
            let id = x as u32;
            match position_from(cards, id, 0) {
                Some(k) => cards.update(
                    k,
                    DeckCard { card_id: id, quantity: inc_u32(cards[k].quantity) },
                ),
                None => cards.push(DeckCard { card_id: id, quantity: 1 }),
            }
        },
        None => cards,
    }
}

/// The cards of a flat list of card ids, each once with its number of
/// copies, in the order of first appearance.
pub open spec fn counts_fold(raw: Seq<JsonValue>) -> Seq<DeckCard>
    decreases raw.len(),
{
    if raw.len() == 0 {
        Seq::empty()
    } else {
        count_step(counts_fold(raw.drop_last()), raw.last())
    }
}

/// The `DeckLoaded` event of a deck message.
pub open spec fn deck_loaded_of(deck: Option<JsonValue>) -> Option<GameEventView> {
    match array_of(field(deck, "deckCards"@)) {
        Some(raw) => Some(
            GameEventView::DeckLoaded {
                cards: counts_fold(raw),
                commander: match u64_of(first_of(array_of(field(deck, "commanderCards"@)))) {
                    Some(c) => Some(c as u32),
                    None => None,
                },
            },
        ),
        None => None,
    }
}

pub open spec fn opt_events(o: Option<GameEventView>) -> Seq<GameEventView> {
    match o {
        Some(e) => seq![e],
        None => Seq::empty(),
    }
}

/// The winning team of an intermission's parameters.
pub open spec fn winning_team_from(params: Seq<JsonValue>, i: int) -> Option<u64>
    decreases params.len() - i,
{
    if i < 0 || i >= params.len() {
        None
    } else {
        let p = params[i];
        let found = if str_of(p.spec_get("parameterName"@)) == Some("WinningTeamId"@) {
            u64_of(p.spec_get("numberValue"@))
        } else {
            None
        };
        match found {
            Some(w) => Some(w),
            None => winning_team_from(params, i + 1),
        }
    }
}

/// An `IntermissionReq`: a game ended. Prompt 25 means a sideboard phase
/// and another game follow, which advances the game number.
pub open spec fn intermission_step(s: GreModel, msg: JsonValue) -> (GreModel, Seq<GameEventView>) {
    let prompt = field(msg.spec_get("intermissionReq"@), "intermissionPrompt"@);
    match (u64_of(field(prompt, "promptId"@)), array_of(field(prompt, "parameters"@))) {
        (Some(prompt_id), Some(params)) => match winning_team_from(params, 0) {
            Some(w) => {
                let sideboard_next = prompt_id == 25;
                let s1 = if sideboard_next {
                    GreModel { game_number: inc_u8(s.game_number), ..s }
                } else {
                    s
                };
                (
                    s1,
                    seq![
                        GameEventView::GameEnded {
                            winning_team_id: w as u8,
                            game_number: s.game_number,
                            sideboard_next,
                        },
                    ],
                )
            },
            None => (s, Seq::empty()),
        },
        _ => (s, Seq::empty()),
    }
}

/// One player's die roll.
pub open spec fn roll_of(r: JsonValue) -> Option<GameEventView> {
    match (u64_of(r.spec_get("systemSeatId"@)), u64_of(r.spec_get("rollValue"@))) {
        (Some(seat), Some(roll)) => Some(
            GameEventView::DieRollResult { seat_id: seat as u8, roll_value: roll as u32 },
        ),
        _ => None,
    }
}

pub open spec fn rolls_of(rs: Seq<JsonValue>) -> Seq<GameEventView> {
    rs.filter_map(|r: JsonValue| roll_of(r))
}

/// The die rolls of a `DieRollResultsResp`.
pub open spec fn die_rolls_of(msg: JsonValue) -> Seq<GameEventView> {
    match array_of(field(msg.spec_get("dieRollResultsResp"@), "playerDieRolls"@)) {
        Some(rs) => rolls_of(rs),
        None => Seq::empty(),
    }
}

/// The type name of a message, or the empty string.
pub open spec fn message_type(msg: JsonValue) -> Seq<char> {
    match str_of(msg.spec_get("type"@)) {
        Some(t) => t,
        None => ""@,
    }
}

/// One message of a `greToClientEvent`.
pub open spec fn message_step(s: GreModel, msg: JsonValue) -> (GreModel, Seq<GameEventView>) {
    let t = message_type(msg);
    if t == "GREMessageType_ConnectResp"@ {
        (s, opt_events(deck_loaded_of(field(msg.spec_get("connectResp"@), "deckMessage"@))))
    } else if t == "GREMessageType_SubmitDeckReq"@ {
        (s, opt_events(deck_loaded_of(field(msg.spec_get("submitDeckReq"@), "deck"@))))
    } else if t == "GREMessageType_GameStateMessage"@ {
        game_state_step(s, msg)
    } else if t == "GREMessageType_IntermissionReq"@ {
        intermission_step(s, msg)
    } else if t == "GREMessageType_DieRollResultsResp"@ {
        (s, die_rolls_of(msg))
    } else {
        (s, Seq::empty())
    }
}

pub open spec fn messages_fold(s: GreModel, ms: Seq<JsonValue>) -> (GreModel, Seq<GameEventView>)
    decreases ms.len(),
{
    if ms.len() == 0 {
        (s, Seq::empty())
    } else {
        let (s1, e1) = messages_fold(s, ms.drop_last());
        let (s2, e2) = message_step(s1, ms.last());
        (s2, e1 + e2)
    }
}

/// One root JSON document of a GRE block.
pub open spec fn root_step(s: GreModel, v: JsonValue) -> (GreModel, Seq<GameEventView>) {
    match array_of(field(v.spec_get("greToClientEvent"@), "greToClientMessages"@)) {
        Some(ms) => messages_fold(s, ms),
        None => (s, Seq::empty()),
    }
}

pub open spec fn roots_fold(s: GreModel, vs: Seq<JsonValue>) -> (GreModel, Seq<GameEventView>)
    decreases vs.len(),
{
    if vs.len() == 0 {
        (s, Seq::empty())
    } else {
        let (s1, e1) = roots_fold(s, vs.drop_last());
        let (s2, e2) = root_step(s1, vs.last());
        (s2, e1 + e2)
    }
}

struct ZoneInfo {
    zone_type: String,
    owner_seat_id: u8,
}

pub struct GreParser {
    zone_map: HashMap<u32, ZoneInfo>,
    instance_map: HashMap<u32, u32>,
    visibility_map: HashMap<u32, String>,
    owner_map: HashMap<u32, u8>,
    game_number: u8,
    commander_casts: HashMap<u32, u8>,
    known_commanders: Vec<(u8, u32)>,
    played_first_reported: bool,
}

impl View for GreParser {
    type V = GreModel;

    closed spec fn view(&self) -> GreModel {
        GreModel {
            zones: self.zone_map@.map_values(|z: ZoneInfo| (z.zone_type@, z.owner_seat_id)),
            instances: self.instance_map@,
            visibility: self.visibility_map@.map_values(|v: String| v@),
            owners: self.owner_map@,
            game_number: self.game_number,
            commander_casts: self.commander_casts@,
            known_commanders: Set::new(|k: (u8, u32)| self.known_commanders@.contains(k)),
            played_first_reported: self.played_first_reported,
        }
    }
}

pub open spec fn event_opt_view(o: Option<GameEvent>) -> Option<GameEventView> {
    match o {
        Some(e) => Some(e@),
        None => None,
    }
}

fn no_events() -> (r: Vec<GameEvent>)
    ensures
        events_view(r@) == Seq::<GameEventView>::empty(),
{
    let r: Vec<GameEvent> = Vec::new();
    assert(events_view(r@) =~= Seq::<GameEventView>::empty());
    r
}

fn one_event(e: GameEvent) -> (r: Vec<GameEvent>)
    ensures
        events_view(r@) == seq![e@],
{
    let mut r: Vec<GameEvent> = Vec::new();
    r.push(e);
    assert(events_view(r@) =~= seq![e@]);
    r
}

fn push_event(out: &mut Vec<GameEvent>, e: GameEvent)
    ensures
        events_view(final(out)@) == events_view(old(out)@).push(e@),
{
    let ghost before = out@;
    out.push(e);
    assert(events_view(out@) =~= events_view(before).push(e@));
}

/// The integer of the first `details` entry keyed `key` that has one.
fn int_detail(details: &Vec<JsonValue>, key: &str) -> (r: Option<i64>)
    ensures
        r == int_detail_from(details@, key@, 0),
{
    let mut i: usize = 0;
    while i < details.len()
        invariant
            i <= details.len(),
            int_detail_from(details@, key@, 0) == int_detail_from(details@, key@, i as int),
        decreases details.len() - i,
    {
        let d = &details[i];
        let found = match d.get_str("key") {
            Some(k) => if str_eq(k, key) {
                first_i64(d.get_array("valueInt32"))
            } else {
                None
            },
            None => None,
        };
        assert(found == detail_int(details@[i as int], key@));
        if let Some(x) = found {
            return Some(x);
        }
        i = i + 1;
    }
    None
}

/// The `OldIds` list of the first `details` entry that has one.
fn old_ids(details: &Vec<JsonValue>) -> (r: Option<&Vec<JsonValue>>)
    ensures
        vec_opt_view(r) == old_ids_from(details@, 0),
{
    let mut i: usize = 0;
    while i < details.len()
        invariant
            i <= details.len(),
            old_ids_from(details@, 0) == old_ids_from(details@, i as int),
        decreases details.len() - i,
    {
        let d = &details[i];
        let found = match d.get_str("key") {
            Some(k) => if str_eq(k, "OldIds") {
                d.get_array("valueInt32")
            } else {
                None
            },
            None => None,
        };
        assert(vec_opt_view(found) == old_ids_of(details@[i as int]));
        if found.is_some() {
            return found;
        }
        i = i + 1;
    }
    None
}

fn has_type_exec(types: &Vec<JsonValue>, name: &str) -> (r: bool)
    ensures
        r == has_type(types@, name@),
{
    let mut i: usize = 0;
    while i < types.len()
        invariant
            i <= types.len(),
            forall|j: int| 0 <= j < i ==> #[trigger] types@[j].spec_as_str() != Some(name@),
        decreases types.len() - i,
    {
        match types[i].as_str() {
            Some(t) => {
                if str_eq(t, name) {
                    assert(types@[i as int].spec_as_str() == Some(name@));
                    return true;
                }
            },
            None => {},
        }
        i = i + 1;
    }
    false
}

/// The position of `id` in `cards`.
fn position(cards: &Vec<DeckCard>, id: u32) -> (r: Option<usize>)
    ensures
        match r {
            Some(k) => k < cards.len() && position_from(cards@, id, 0) == Some(k as int),
            None => position_from(cards@, id, 0) is None,
        },
{
    let mut i: usize = 0;
    while i < cards.len()
        invariant
            i <= cards.len(),
            position_from(cards@, id, 0) == position_from(cards@, id, i as int),
        decreases cards.len() - i,
    {
        if cards[i].card_id == id {
            return Some(i);
        }
        i = i + 1;
    }
    None
}

/// Counts the card ids of a flat list, in the order of first appearance.
fn count_cards(raw: &Vec<JsonValue>) -> (r: Vec<DeckCard>)
    ensures
        r@ == counts_fold(raw@),
{
    let mut cards: Vec<DeckCard> = Vec::new();
    let mut i: usize = 0;
    while i < raw.len()
        invariant
            i <= raw.len(),
            cards@ == counts_fold(raw@.take(i as int)),
        decreases raw.len() - i,
    {
        proof {
            assert(raw@.take(i + 1).drop_last() =~= raw@.take(i as int));
        }
        let ghost prev = cards@;
        assert(raw@.take(i + 1).last() == raw@[i as int]);
        match raw[i].as_u64() {
            Some(x) => {
                let id = x as u32;
                match position(&cards, id) {
                    Some(k) => {
                        let q = cards[k].quantity;
                        cards.set(k, DeckCard { card_id: id, quantity: inc_u32_exec(q) });
                        assert(cards@ == prev.update(
                            k as int,
                            DeckCard { card_id: id, quantity: inc_u32(prev[k as int].quantity) },
                        ));
                    },
                    None => {
                        cards.push(DeckCard { card_id: id, quantity: 1 });
                    },
                }
                assert(cards@ == count_step(prev, raw@[i as int]));
            },
            None => {
                assert(cards@ == count_step(prev, raw@[i as int]));
            },
        }
        assert(counts_fold(raw@.take(i + 1)) == count_step(counts_fold(raw@.take(i as int)), raw@[i as int]));
        i = i + 1;
    }
    assert(raw@.take(raw@.len() as int) =~= raw@);
    cards
}

/// The `DeckLoaded` event of a deck message (a flat list of card ids, with
/// duplicates, and an optional commander list).
fn flat_array_to_deck_loaded(deck: Option<&JsonValue>) -> (r: Option<GameEvent>)
    ensures
        event_opt_view(r) == deck_loaded_of(deref_opt(deck)),
{
    let deck = match deck {
        Some(d) => d,
        None => return None,
    };
    let raw = match deck.get_array("deckCards") {
        Some(r) => r,
        None => return None,
    };
    let cards = count_cards(raw);
    let commander = match first_u64(deck.get_array("commanderCards")) {
        Some(c) => Some(c as u32),
        None => None,
    };
    Some(GameEvent::DeckLoaded { cards, commander })
}

fn winning_team(params: &Vec<JsonValue>) -> (r: Option<u64>)
    ensures
        r == winning_team_from(params@, 0),
{
    let mut i: usize = 0;
    while i < params.len()
        invariant
            i <= params.len(),
            winning_team_from(params@, 0) == winning_team_from(params@, i as int),
        decreases params.len() - i,
    {
        let p = &params[i];
        let found = match p.get_str("parameterName") {
            Some(n) => if str_eq(n, "WinningTeamId") {
                p.get_u64("numberValue")
            } else {
                None
            },
            None => None,
        };
        if let Some(w) = found {
            return Some(w);
        }
        i = i + 1;
    }
    None
}

fn parse_die_rolls(msg: &JsonValue) -> (r: Vec<GameEvent>)
    ensures
        events_view(r@) == die_rolls_of(*msg),
{
    let rolls = match msg.get("dieRollResultsResp") {
        Some(d) => d.get_array("playerDieRolls"),
        None => None,
    };
    let rolls = match rolls {
        Some(r) => r,
        None => return no_events(),
    };
    let mut out = no_events();
    let mut i: usize = 0;
    while i < rolls.len()
        invariant
            i <= rolls.len(),
            events_view(out@) == rolls_of(rolls@.take(i as int)),
        decreases rolls.len() - i,
    {
        proof {
            assert(rolls@.take(i + 1).drop_last() =~= rolls@.take(i as int));
        }
        let r = &rolls[i];
        match (r.get_u64("systemSeatId"), r.get_u64("rollValue")) {
            (Some(seat), Some(roll)) => {
                push_event(
                    &mut out,
                    GameEvent::DieRollResult { seat_id: seat as u8, roll_value: roll as u32 },
                );
            },
            _ => {},
        }
        i = i + 1;
    }
    assert(rolls@.take(rolls@.len() as int) =~= rolls@);
    out
}

impl GreParser {
    pub fn new() -> (r: GreParser)
        ensures
            r@ == GreModel::initial(),
    {
        let r = GreParser {
            zone_map: HashMap::new(),
            instance_map: HashMap::new(),
            visibility_map: HashMap::new(),
            owner_map: HashMap::new(),
            game_number: 1,
            commander_casts: HashMap::new(),
            known_commanders: Vec::new(),
            played_first_reported: false,
        };
        assert(r@.zones =~= Map::empty());
        assert(r@.visibility =~= Map::empty());
        assert(r@.known_commanders =~= Set::empty());
        r
    }

    /// Forgets everything about the previous match.
    pub fn reset(&mut self)
        ensures
            final(self)@ == GreModel::initial(),
    {
        self.zone_map.clear();
        self.instance_map.clear();
        self.visibility_map.clear();
        self.owner_map.clear();
        self.game_number = 1;
        self.commander_casts.clear();
        self.known_commanders.clear();
        self.played_first_reported = false;
        assert(self@.zones =~= Map::empty());
        assert(self@.visibility =~= Map::empty());
        assert(self@.known_commanders =~= Set::empty());
    }

    fn clear_maps(&mut self)
        ensures
            final(self)@ == maps_cleared(old(self)@),
    {
        self.zone_map.clear();
        self.instance_map.clear();
        self.visibility_map.clear();
        self.owner_map.clear();
        assert(self@.zones =~= Map::empty());
        assert(self@.visibility =~= Map::empty());
    }

    fn ingest_zone(&mut self, zone: &JsonValue)
        ensures
            final(self)@ == zone_step(old(self)@, *zone),
    {
        match (zone.get_u64("zoneId"), zone.get_str("type")) {
            (Some(id), Some(t)) => {
                let owner = match zone.get_u64("ownerSeatId") {
                    Some(o) => o,
                    None => 0,
                };
                let ghost before = self@;
                let info = ZoneInfo { zone_type: t.to_owned(), owner_seat_id: owner as u8 };
                self.zone_map.insert(id as u32, info);
                assert(self@.zones =~= before.zones.insert(id as u32, (t@, owner as u8)));
            },
            _ => {},
        }
    }

    fn ingest_zones(&mut self, zs: &Vec<JsonValue>)
        ensures
            final(self)@ == zones_fold(old(self)@, zs@),
    {
        let ghost s0 = self@;
        let mut i: usize = 0;
        while i < zs.len()
            invariant
                i <= zs.len(),
                self@ == zones_fold(s0, zs@.take(i as int)),
            decreases zs.len() - i,
        {
            proof {
                assert(zs@.take(i + 1).drop_last() =~= zs@.take(i as int));
            }
            self.ingest_zone(&zs[i]);
            i = i + 1;
        }
        assert(zs@.take(zs@.len() as int) =~= zs@);
    }

    fn ingest_object(&mut self, obj: &JsonValue)
        ensures
            final(self)@ == object_step(old(self)@, *obj),
    {
        match obj.get_u64("instanceId") {
            Some(iid) => {
                let id = iid as u32;
                let ghost before = self@;
                match obj.get_u64("grpId") {
                    Some(g) => {
                        self.instance_map.insert(id, g as u32);
                    },
                    None => {},
                }
                match obj.get_u64("ownerSeatId") {
                    Some(o) => {
                        self.owner_map.insert(id, o as u8);
                    },
                    None => {},
                }
                let vis = match obj.get_str("visibility") {
                    Some(v) => v.to_owned(),
                    None => "Visibility_Public".to_owned(),
                };
                let ghost vis_view = vis@;
                self.visibility_map.insert(id, vis);
                assert(self@.visibility =~= before.visibility.insert(id, vis_view));
            },
            None => {},
        }
    }

    fn ingest_objects(&mut self, os: &Vec<JsonValue>)
        ensures
            final(self)@ == objects_fold(old(self)@, os@),
    {
        let ghost s0 = self@;
        let mut i: usize = 0;
        while i < os.len()
            invariant
                i <= os.len(),
                self@ == objects_fold(s0, os@.take(i as int)),
            decreases os.len() - i,
        {
            proof {
                assert(os@.take(i + 1).drop_last() =~= os@.take(i as int));
            }
            self.ingest_object(&os[i]);
            i = i + 1;
        }
        assert(os@.take(os@.len() as int) =~= os@);
    }

    fn update_maps(&mut self, gs: &JsonValue)
        ensures
            final(self)@ == maps_updated(old(self)@, *gs),
    {
        match gs.get_array("zones") {
            Some(zs) => self.ingest_zones(zs),
            None => {},
        }
        match gs.get_array("gameObjects") {
            Some(os) => self.ingest_objects(os),
            None => {},
        }
    }

    fn knows_commander(&self, key: (u8, u32)) -> (r: bool)
        ensures
            r == self@.known_commanders.contains(key),
    {
        let mut i: usize = 0;
        while i < self.known_commanders.len()
            invariant
                i <= self.known_commanders.len(),
                forall|j: int| 0 <= j < i ==> self.known_commanders@[j] != key,
            decreases self.known_commanders.len() - i,
        {
            let k = self.known_commanders[i];
            if k.0 == key.0 && k.1 == key.1 {
                return true;
            }
            i = i + 1;
        }
        false
    }

    fn detect_commander(&mut self, obj: &JsonValue) -> (r: Vec<GameEvent>)
        ensures
            (final(self)@, events_view(r@)) == commander_step(old(self)@, *obj),
    {
        let z = match obj.get_u64("zoneId") {
            Some(z) => z as u32,
            None => return no_events(),
        };
        let is_command = match self.zone_map.get(&z) {
            Some(info) => str_eq(info.zone_type.as_str(), "ZoneType_Command"),
            None => false,
        };
        if !is_command {
            return no_events();
        }
        let (g, o) = match (obj.get_u64("grpId"), obj.get_u64("ownerSeatId")) {
            (Some(g), Some(o)) => (g, o),
            _ => return no_events(),
        };
        let key = (o as u8, g as u32);
        if self.knows_commander(key) {
            return no_events();
        }
        let ghost before = self@;
        let ghost old_seq = self.known_commanders@;
        self.known_commanders.push(key);
        assert(self.known_commanders@ == old_seq.push(key));
        assert forall|k: (u8, u32)| #[trigger]
            self.known_commanders@.contains(k) == (old_seq.contains(k) || k == key) by {
            if old_seq.contains(k) {
                let j = choose|j: int| 0 <= j < old_seq.len() && old_seq[j] == k;
                assert(self.known_commanders@[j] == k);
            }
            if k == key {
                assert(self.known_commanders@[old_seq.len() as int] == key);
            }
        }
        assert(self@.known_commanders =~= before.known_commanders.insert(key));
        one_event(GameEvent::CommanderRevealed { card_id: g as u32, seat_id: o as u8 })
    }

    fn detect_new_commanders(&mut self, gs: &JsonValue) -> (r: Vec<GameEvent>)
        ensures
            (final(self)@, events_view(r@)) == commanders_of(old(self)@, *gs),
    {
        let os = match gs.get_array("gameObjects") {
            Some(o) => o,
            None => return no_events(),
        };
        let ghost s0 = self@;
        let mut out = no_events();
        let mut i: usize = 0;
        while i < os.len()
            invariant
                i <= os.len(),
                (self@, events_view(out@)) == commanders_fold(s0, os@.take(i as int)),
            decreases os.len() - i,
        {
            proof {
                assert(os@.take(i + 1).drop_last() =~= os@.take(i as int));
            }
            let es = self.detect_commander(&os[i]);
            append_events(&mut out, es);
            i = i + 1;
        }
        assert(os@.take(os@.len() as int) =~= os@);
        out
    }

    fn forget_instances(&mut self, ids: &Vec<JsonValue>)
        ensures
            final(self)@ == forget_fold(old(self)@, ids@),
    {
        let ghost s0 = self@;
        let mut i: usize = 0;
        while i < ids.len()
            invariant
                i <= ids.len(),
                self@ == forget_fold(s0, ids@.take(i as int)),
            decreases ids.len() - i,
        {
            proof {
                assert(ids@.take(i + 1).drop_last() =~= ids@.take(i as int));
            }
            match ids[i].as_u64() {
                Some(x) => {
                    let k = x as u32;
                    let ghost before = self@;
                    self.instance_map.remove(&k);
                    self.visibility_map.remove(&k);
                    self.owner_map.remove(&k);
                    assert(self@.visibility =~= before.visibility.remove(k));
                },
                None => {},
            }
            i = i + 1;
        }
        assert(ids@.take(ids@.len() as int) =~= ids@);
    }

    fn handle_shuffle(&mut self, ann: &JsonValue) -> (r: Vec<GameEvent>)
        ensures
            (final(self)@, events_view(r@)) == shuffle_step(old(self)@, *ann),
    {
        let details = match ann.get_array("details") {
            Some(d) => d,
            None => return no_events(),
        };
        match old_ids(details) {
            Some(ids) => self.forget_instances(ids),
            None => {},
        }
        let seat_id = match first_u64(ann.get_array("affectedIds")) {
            Some(x) => x as u8,
            None => 0,
        };
        one_event(GameEvent::LibraryShuffle { seat_id })
    }

    fn handle_zone_transfer(&mut self, ann: &JsonValue) -> (r: Vec<GameEvent>)
        ensures
            (final(self)@, events_view(r@)) == transfer_step(old(self)@, *ann),
    {
        let iid64 = match first_u64(ann.get_array("affectedIds")) {
            Some(x) => x,
            None => return no_events(),
        };
        let details = match ann.get_array("details") {
            Some(d) => d,
            None => return no_events(),
        };
        let src64 = match int_detail(details, "zone_src") {
            Some(x) => x,
            None => return no_events(),
        };
        let dst64 = match int_detail(details, "zone_dest") {
            Some(x) => x,
            None => return no_events(),
        };
        let iid = iid64 as u32;
        let src = src64 as u32;
        let dst = dst64 as u32;
        let ghost s = self@;
        let (from_zone, src_owner, src_is_command, src_is_gy_or_exile) = match self.zone_map.get(
            &src,
        ) {
            Some(info) => (
                Zone::from_str(info.zone_type.as_str()),
                info.owner_seat_id,
                str_eq(info.zone_type.as_str(), "ZoneType_Command"),
                str_eq(info.zone_type.as_str(), "ZoneType_Graveyard") || str_eq(
                    info.zone_type.as_str(),
                    "ZoneType_Exile",
                ),
            ),
            None => return no_events(),
        };
        let (to_zone, dst_is_stack, dst_is_command, dst_is_exile) = match self.zone_map.get(
            &dst,
        ) {
            Some(info) => (
                Zone::from_str(info.zone_type.as_str()),
                str_eq(info.zone_type.as_str(), "ZoneType_Stack"),
                str_eq(info.zone_type.as_str(), "ZoneType_Command"),
                str_eq(info.zone_type.as_str(), "ZoneType_Exile"),
            ),
            None => return no_events(),
        };
        let card = match self.instance_map.get(&iid) {
            Some(c) => *c,
            None => return no_events(),
        };
        let owner = match self.owner_map.get(&iid) {
            Some(o) => if *o != 0 {
                *o
            } else {
                src_owner
            },
            None => src_owner,
        };
        assert(owner == moved_owner(s, iid, src_owner));
        let face_down = dst_is_exile && match self.visibility_map.get(&iid) {
            Some(v) => !str_eq(v.as_str(), "Visibility_Public"),
            None => false,
        };
        assert(face_down == moved_face_down(s, iid, s.zones[dst].0));
        let mut out = one_event(
            GameEvent::ZoneChanged {
                instance_id: iid,
                card_id: card,
                from_zone,
                to_zone,
                owner_seat_id: owner,
                face_down,
            },
        );
        if src_is_command && dst_is_stack {
            let count = match self.commander_casts.get(&card) {
                Some(c) => inc_u8_exec(*c),
                None => 1,
            };
            assert(count == next_cast_count(s.commander_casts, card));
            self.commander_casts.insert(card, count);
            push_event(
                &mut out,
                GameEvent::CommanderCast {
                    card_id: card,
                    seat_id: owner,
                    cast_count: count,
                    tax: double_u8_exec(count),
                },
            );
        }
        if dst_is_command && src_is_gy_or_exile && self.commander_casts.contains_key(&card) {
            push_event(&mut out, GameEvent::CommanderReturned { card_id: card, seat_id: owner });
        }
        out
    }

    fn handle_annotation(&mut self, ann: &JsonValue) -> (r: Vec<GameEvent>)
        ensures
            (final(self)@, events_view(r@)) == annotation_step(old(self)@, *ann),
    {
        let types = match ann.get_array("type") {
            Some(t) => t,
            None => return no_events(),
        };
        if has_type_exec(types, "AnnotationType_ZoneTransfer") {
            self.handle_zone_transfer(ann)
        } else if has_type_exec(types, "AnnotationType_Shuffle") {
            self.handle_shuffle(ann)
        } else {
            no_events()
        }
    }

    fn process_zone_transfers(&mut self, gs: &JsonValue) -> (r: Vec<GameEvent>)
        ensures
            (final(self)@, events_view(r@)) == annotations_of(old(self)@, *gs),
    {
        let anns = match gs.get_array("annotations") {
            Some(a) => a,
            None => return no_events(),
        };
        let ghost s0 = self@;
        let mut out = no_events();
        let mut i: usize = 0;
        while i < anns.len()
            invariant
                i <= anns.len(),
                (self@, events_view(out@)) == annotations_fold(s0, anns@.take(i as int)),
            decreases anns.len() - i,
        {
            proof {
                assert(anns@.take(i + 1).drop_last() =~= anns@.take(i as int));
            }
            let es = self.handle_annotation(&anns[i]);
            append_events(&mut out, es);
            i = i + 1;
        }
        assert(anns@.take(anns@.len() as int) =~= anns@);
        out
    }

    fn seat_cards_exec(&self, os: &Vec<JsonValue>, seat: u8, ztype: &str) -> (r: Vec<u32>)
        ensures
            r@ == seat_cards(self@.zones, os@, seat, ztype@),
    {
        let ghost zones = self@.zones;
        let mut out: Vec<u32> = Vec::new();
        let mut i: usize = 0;
        while i < os.len()
            invariant
                i <= os.len(),
                zones == self@.zones,
                out@ == seat_cards(zones, os@.take(i as int), seat, ztype@),
            decreases os.len() - i,
        {
            proof {
                assert(os@.take(i + 1).drop_last() =~= os@.take(i as int));
                assert(os@.take(i + 1).last() == os@[i as int]);
            }
            let o = &os[i];
            match (o.get_u64("zoneId"), o.get_u64("grpId"), o.get_u64("ownerSeatId")) {
                (Some(z), Some(g), Some(w)) => {
                    let in_zone = match self.zone_map.get(&(z as u32)) {
                        Some(info) => str_eq(info.zone_type.as_str(), ztype),
                        None => false,
                    };
                    if in_zone && w as u8 == seat {
                        out.push(g as u32);
                    }
                },
                _ => {},
            }
            i = i + 1;
        }
        assert(os@.take(os@.len() as int) =~= os@);
        out
    }

    fn library_top_exec(&self, zone: &JsonValue) -> (r: Option<u32>)
        ensures
            r == library_top(self@, *zone),
    {
        match first_u64(zone.get_array("objectInstanceIds")) {
            Some(i) => match self.instance_map.get(&(i as u32)) {
                Some(g) => Some(*g),
                None => None,
            },
            None => None,
        }
    }

    fn zone_sync_exec(&self, os: &Vec<JsonValue>, zone: &JsonValue) -> (r: Option<GameEvent>)
        ensures
            event_opt_view(r) == zone_sync(self@, os@, *zone),
    {
        let is_library = match zone.get_str("type") {
            Some(t) => str_eq(t, "ZoneType_Library"),
            None => false,
        };
        proof {
            reveal_strlit("ZoneType_Library");
        }
        if !is_library {
            return None;
        }
        let seat: u8 = match zone.get_u64("ownerSeatId") {
            Some(o) => o as u8,
            None => 0,
        };
        Some(
            GameEvent::ZoneStateSync {
                seat_id: seat,
                hand: self.seat_cards_exec(os, seat, "ZoneType_Hand"),
                battlefield: self.seat_cards_exec(os, seat, "ZoneType_Battlefield"),
                graveyard: self.seat_cards_exec(os, seat, "ZoneType_Graveyard"),
                exile: self.seat_cards_exec(os, seat, "ZoneType_Exile"),
                stack: self.seat_cards_exec(os, seat, "ZoneType_Stack"),
                top_of_library: self.library_top_exec(zone),
            },
        )
    }

    fn zone_syncs(&self, gs: &JsonValue) -> (r: Vec<GameEvent>)
        ensures
            events_view(r@) == zone_syncs_of(self@, *gs),
    {
        let zs = match gs.get_array("zones") {
            Some(z) => z,
            None => return no_events(),
        };
        let empty: Vec<JsonValue> = Vec::new();
        let os = match gs.get_array("gameObjects") {
            Some(o) => o,
            None => &empty,
        };
        assert(os@ == objects_of(*gs));
        let mut out = no_events();
        let mut i: usize = 0;
        while i < zs.len()
            invariant
                i <= zs.len(),
                os@ == objects_of(*gs),
                events_view(out@) == syncs_fold(self@, os@, zs@.take(i as int)),
            decreases zs.len() - i,
        {
            proof {
                assert(zs@.take(i + 1).drop_last() =~= zs@.take(i as int));
                assert(zs@.take(i + 1).last() == zs@[i as int]);
            }
            let ghost before = events_view(out@);
            match self.zone_sync_exec(os, &zs[i]) {
                Some(e) => {
                    push_event(&mut out, e);
                    assert(events_view(out@) =~= before + opt_events(zone_sync(self@, os@, zs@[i as int])));
                },
                None => {
                    assert(events_view(out@) =~= before + opt_events(zone_sync(self@, os@, zs@[i as int])));
                },
            }
            i = i + 1;
        }
        assert(zs@.take(zs@.len() as int) =~= zs@);
        out
    }

    fn played_first(&mut self, gs: &JsonValue) -> (r: Vec<GameEvent>)
        ensures
            (final(self)@, events_view(r@)) == played_first_step(old(self)@, *gs),
    {
        let (t, a) = match gs.get("turnInfo") {
            Some(ti) => (ti.get_u64("turnNumber"), ti.get_u64("activePlayer")),
            None => (None, None),
        };
        match (t, a) {
            (Some(t), Some(a)) => {
                if t == 1 && self.game_number == 1 && !self.played_first_reported {
                    self.played_first_reported = true;
                    one_event(GameEvent::PlayedFirst { seat_id: a as u8 })
                } else {
                    no_events()
                }
            },
            _ => no_events(),
        }
    }

    fn parse_game_state(&mut self, msg: &JsonValue) -> (r: Vec<GameEvent>)
        ensures
            (final(self)@, events_view(r@)) == game_state_step(old(self)@, *msg),
    {
        let gs = match msg.get("gameStateMessage") {
            Some(g) => g,
            None => return no_events(),
        };
        let update_type = match gs.get_str("type") {
            Some(t) => t,
            None => "",
        };
        if str_eq(update_type, "GameStateType_Full") {
            self.clear_maps();
            self.update_maps(gs);
            let mut events = self.detect_new_commanders(gs);
            let syncs = self.zone_syncs(gs);
            append_events(&mut events, syncs);
            let first = self.played_first(gs);
            append_events(&mut events, first);
            return events;
        }
        self.update_maps(gs);
        let mut events = self.detect_new_commanders(gs);
        let more = self.process_zone_transfers(gs);
        append_events(&mut events, more);
        let first = self.played_first(gs);
        append_events(&mut events, first);
        events
    }

    fn parse_intermission(&mut self, msg: &JsonValue) -> (r: Vec<GameEvent>)
        ensures
            (final(self)@, events_view(r@)) == intermission_step(old(self)@, *msg),
    {
        let prompt = match msg.get("intermissionReq") {
            Some(req) => req.get("intermissionPrompt"),
            None => None,
        };
        let prompt = match prompt {
            Some(p) => p,
            None => return no_events(),
        };
        let prompt_id = match prompt.get_u64("promptId") {
            Some(p) => p,
            None => return no_events(),
        };
        let params = match prompt.get_array("parameters") {
            Some(p) => p,
            None => return no_events(),
        };
        let winning = match winning_team(params) {
            Some(w) => w,
            None => return no_events(),
        };
        let sideboard_next = prompt_id == 25;
        let game_number = self.game_number;
        if sideboard_next {
            self.game_number = inc_u8_exec(self.game_number);
        }
        one_event(
            GameEvent::GameEnded { winning_team_id: winning as u8, game_number, sideboard_next },
        )
    }

    fn process_message(&mut self, msg: &JsonValue) -> (r: Vec<GameEvent>)
        ensures
            (final(self)@, events_view(r@)) == message_step(old(self)@, *msg),
    {
        let t = match msg.get_str("type") {
            Some(t) => t,
            None => "",
        };
        if str_eq(t, "GREMessageType_ConnectResp") {
            let deck = match msg.get("connectResp") {
                Some(c) => c.get("deckMessage"),
                None => None,
            };
            match flat_array_to_deck_loaded(deck) {
                Some(e) => one_event(e),
                None => no_events(),
            }
        } else if str_eq(t, "GREMessageType_SubmitDeckReq") {
            let deck = match msg.get("submitDeckReq") {
                Some(c) => c.get("deck"),
                None => None,
            };
            match flat_array_to_deck_loaded(deck) {
                Some(e) => one_event(e),
                None => no_events(),
            }
        } else if str_eq(t, "GREMessageType_GameStateMessage") {
            self.parse_game_state(msg)
        } else if str_eq(t, "GREMessageType_IntermissionReq") {
            self.parse_intermission(msg)
        } else if str_eq(t, "GREMessageType_DieRollResultsResp") {
            parse_die_rolls(msg)
        } else {
            no_events()
        }
    }

    /// The events of one root JSON document of a GRE block.
    pub fn process_root_value(&mut self, v: &JsonValue) -> (r: Vec<GameEvent>)
        ensures
            (final(self)@, events_view(r@)) == root_step(old(self)@, *v),
    {
        let ms = match v.get("greToClientEvent") {
            Some(e) => e.get_array("greToClientMessages"),
            None => None,
        };
        let ms = match ms {
            Some(m) => m,
            None => return no_events(),
        };
        let ghost s0 = self@;
        let mut out = no_events();
        let mut i: usize = 0;
        while i < ms.len()
            invariant
                i <= ms.len(),
                (self@, events_view(out@)) == messages_fold(s0, ms@.take(i as int)),
            decreases ms.len() - i,
        {
            proof {
                assert(ms@.take(i + 1).drop_last() =~= ms@.take(i as int));
            }
            let es = self.process_message(&ms[i]);
            append_events(&mut out, es);
            i = i + 1;
        }
        assert(ms@.take(ms@.len() as int) =~= ms@);
        out
    }

    /// The events of GRE documents already parsed, in order.
    pub fn parse_values(&mut self, vs: &Vec<JsonValue>) -> (r: Vec<GameEvent>)
        ensures
            (final(self)@, events_view(r@)) == roots_fold(old(self)@, vs@),
    {
        let ghost s0 = self@;
        let mut out = no_events();
        let mut i: usize = 0;
        while i < vs.len()
            invariant
                i <= vs.len(),
                (self@, events_view(out@)) == roots_fold(s0, vs@.take(i as int)),
            decreases vs.len() - i,
        {
            proof {
                assert(vs@.take(i + 1).drop_last() =~= vs@.take(i as int));
            }
            let es = self.process_root_value(&vs[i]);
            append_events(&mut out, es);
            i = i + 1;
        }
        assert(vs@.take(vs@.len() as int) =~= vs@);
        out
    }

    /// The events of a GRE block. Several JSON documents written back to
    /// back are all read, up to the first that does not parse.
    pub fn parse(&mut self, content: &str) -> (r: Vec<GameEvent>)
        ensures
            (final(self)@, events_view(r@)) == roots_fold(old(self)@, json_stream(content@)),
    {
        let vs = parse_stream(content);
        self.parse_values(&vs)
    }
}

} // verus!

verus! {

/// Law: casting a commander from the command zone counts one more cast
/// and reports the commander tax for the next cast, twice the casts made.
pub proof fn law_commander_cast_counts(s: GreModel, iid: u32, card: u32, src_owner: u8)
    ensures
        ({
            let (s1, es) = transfer_outcome(
                s,
                iid,
                card,
                "ZoneType_Command"@,
                src_owner,
                "ZoneType_Stack"@,
            );
            let count = next_cast_count(s.commander_casts, card);
            &&& s1.commander_casts == s.commander_casts.insert(card, count)
            &&& es.len() == 2
            &&& es[1] == GameEventView::CommanderCast {
                card_id: card,
                seat_id: moved_owner(s, iid, src_owner),
                cast_count: count,
                tax: double_u8(count),
            }
        }),
{
    reveal_strlit("ZoneType_Command");
    reveal_strlit("ZoneType_Stack");
    assert("ZoneType_Stack"@ != "ZoneType_Command"@) by {
        assert("ZoneType_Stack"@.len() != "ZoneType_Command"@.len());
    }
}

/// Law: the first cast of a commander in a match has tax 2, the second 4.
pub proof fn law_commander_tax_sequence(
    s: GreModel,
    iid1: u32,
    iid2: u32,
    card: u32,
    owner1: u8,
    owner2: u8,
)
    requires
        !s.commander_casts.contains_key(card),
    ensures
        ({
            let (s1, e1) = transfer_outcome(
                s,
                iid1,
                card,
                "ZoneType_Command"@,
                owner1,
                "ZoneType_Stack"@,
            );
            let (s2, e2) = transfer_outcome(
                s1,
                iid2,
                card,
                "ZoneType_Command"@,
                owner2,
                "ZoneType_Stack"@,
            );
            &&& e1[1] is CommanderCast && e1[1]->cast_count == 1 && e1[1]->tax == 2
            &&& e2[1] is CommanderCast && e2[1]->cast_count == 2 && e2[1]->tax == 4
        }),
{
    law_commander_cast_counts(s, iid1, card, owner1);
    let (s1, e1) = transfer_outcome(s, iid1, card, "ZoneType_Command"@, owner1, "ZoneType_Stack"@);
    law_commander_cast_counts(s1, iid2, card, owner2);
    assert(double_u8(1) == 2);
    assert(double_u8(2) == 4);
}

/// Law: a commander seen in the command zone is announced once: the same
/// object seen again announces nothing.
pub proof fn law_commander_announced_once(s: GreModel, obj: JsonValue)
    ensures
        commander_step(commander_step(s, obj).0, obj).1 == Seq::<GameEventView>::empty(),
        commander_step(s, obj).0.zones == s.zones,
{
}

/// Law: a game's end reports the current game number, and advances it
/// exactly when a sideboard phase (and another game) follows.
pub proof fn law_game_numbering(s: GreModel, msg: JsonValue)
    ensures
        ({
            let (s1, es) = intermission_step(s, msg);
            &&& es.len() <= 1
            &&& es.len() == 0 ==> s1 == s
            &&& es.len() == 1 ==> {
                &&& es[0] is GameEnded
                &&& es[0]->game_number == s.game_number
                &&& s1.game_number == if es[0]->sideboard_next {
                    inc_u8(s.game_number)
                } else {
                    s.game_number
                }
                &&& s1 == GreModel { game_number: s1.game_number, ..s }
            }
        }),
{
}

/// Law: a root document without GRE messages changes nothing and reports
/// nothing.
pub proof fn law_other_documents_ignored(s: GreModel, v: JsonValue)
    requires
        array_of(field(v.spec_get("greToClientEvent"@), "greToClientMessages"@)) is None,
    ensures
        root_step(s, v) == (s, Seq::<GameEventView>::empty()),
{
}

/// The number of entries of a flat card list that denote card `id`.
pub open spec fn occurrences(raw: Seq<JsonValue>, id: u32) -> nat
    decreases raw.len(),
{
    if raw.len() == 0 {
        0
    } else {
        occurrences(raw.drop_last(), id) + match raw.last().spec_as_u64() {
            Some(x) => if x as u32 == id {
                1nat
            } else {
                0nat
            },
            None => 0nat,
        }
    }
}

/// A deck list names each card at most once.
pub open spec fn distinct_cards(cards: Seq<DeckCard>) -> bool {
    forall|i: int, j: int|
        0 <= i < cards.len() && 0 <= j < cards.len() && i != j ==> cards[i].card_id
            != cards[j].card_id
}

proof fn lemma_position_from(cards: Seq<DeckCard>, id: u32, i: int)
    requires
        0 <= i,
    ensures
        match position_from(cards, id, i) {
            Some(k) => i <= k < cards.len() && cards[k].card_id == id,
            None => forall|j: int| i <= j < cards.len() ==> cards[j].card_id != id,
        },
    decreases cards.len() - i,
{
    if i < cards.len() && cards[i].card_id != id {
        lemma_position_from(cards, id, i + 1);
    }
}

/// Law: the `DeckLoaded` cards of a flat card-id list name each card once,
/// list every card of the list, and give each the number of its copies
/// (counted modulo 2^32, as a `u32` counter wraps).
pub proof fn law_deck_counts(raw: Seq<JsonValue>)
    ensures
        distinct_cards(counts_fold(raw)),
        forall|k: int|
            0 <= k < counts_fold(raw).len() ==> (#[trigger] counts_fold(raw)[k]).quantity as nat
                == occurrences(raw, counts_fold(raw)[k].card_id) % 0x1_0000_0000
                && occurrences(raw, counts_fold(raw)[k].card_id) > 0,
        forall|id: u32|
            occurrences(raw, id) > 0 ==> exists|k: int|
                0 <= k < counts_fold(raw).len() && #[trigger] counts_fold(raw)[k].card_id == id,
    decreases raw.len(),
{
    if raw.len() > 0 {
        let prev = raw.drop_last();
        law_deck_counts(prev);
        let cs = counts_fold(prev);
        let v = raw.last();
        match v.spec_as_u64() {
            Some(x) => {
                let id = x as u32;
                lemma_position_from(cs, id, 0);
                let r = counts_fold(raw);
                match position_from(cs, id, 0) {
                    Some(p) => {
                        assert(r == cs.update(p, DeckCard { card_id: id, quantity: inc_u32(cs[p].quantity) }));
                        assert forall|k: int| 0 <= k < r.len() implies (#[trigger] r[k]).quantity as nat
                            == occurrences(raw, r[k].card_id) % 0x1_0000_0000 && occurrences(
                            raw,
                            r[k].card_id,
                        ) > 0 by {
                            if k == p {
                                assert(cs[p].quantity as nat == occurrences(prev, id) % 0x1_0000_0000);
                            } else {
                                assert(cs[k].card_id != id);
                            }
                        }
                        assert forall|n: u32| occurrences(raw, n) > 0 implies exists|k: int|
                            0 <= k < r.len() && #[trigger] r[k].card_id == n by {
                            if n != id {
                                assert(occurrences(prev, n) > 0);
                                let k = choose|k: int| 0 <= k < cs.len() && #[trigger] cs[k].card_id == n;
                                assert(k != p);
                                assert(r[k] == cs[k]);
                            } else {
                                assert(r[p].card_id == n);
                            }
                        }
                    },
                    None => {
                        assert(r == cs.push(DeckCard { card_id: id, quantity: 1 }));
                        assert(occurrences(prev, id) == 0) by {
                            if occurrences(prev, id) > 0 {
                                let k = choose|k: int| 0 <= k < cs.len() && #[trigger] cs[k].card_id == id;
                            }
                        }
                        assert forall|k: int| 0 <= k < r.len() implies (#[trigger] r[k]).quantity as nat
                            == occurrences(raw, r[k].card_id) % 0x1_0000_0000 && occurrences(
                            raw,
                            r[k].card_id,
                        ) > 0 by {
                            if k < cs.len() {
                                assert(cs[k].card_id != id);
                            }
                        }
                        assert forall|n: u32| occurrences(raw, n) > 0 implies exists|k: int|
                            0 <= k < r.len() && #[trigger] r[k].card_id == n by {
                            if n != id {
                                assert(occurrences(prev, n) > 0);
                                let k = choose|k: int| 0 <= k < cs.len() && #[trigger] cs[k].card_id == n;
                                assert(r[k] == cs[k]);
                            } else {
                                assert(r[cs.len() as int].card_id == n);
                            }
                        }
                    },
                }
            },
            None => {
                assert forall|n: u32| occurrences(raw, n) > 0 implies exists|k: int|
                    0 <= k < counts_fold(raw).len() && #[trigger] counts_fold(raw)[k].card_id == n by {
                    assert(occurrences(raw, n) == occurrences(prev, n));
                    assert(occurrences(prev, n) > 0);
                    assert(counts_fold(raw) == cs);
                    let k = choose|k: int| 0 <= k < cs.len() && #[trigger] cs[k].card_id == n;
                    assert(counts_fold(raw)[k].card_id == n);
                }
                assert forall|k: int| 0 <= k < counts_fold(raw).len() implies (#[trigger] counts_fold(raw)[k]).quantity as nat
                    == occurrences(raw, counts_fold(raw)[k].card_id) % 0x1_0000_0000
                    && occurrences(raw, counts_fold(raw)[k].card_id) > 0 by {
                    assert(counts_fold(raw) == cs);
                    assert(occurrences(raw, cs[k].card_id) == occurrences(prev, cs[k].card_id));
                }
            },
        }
    }
}

} // verus!

verus! {

/// The (seat, card) that a game object shows as a commander: an object in a
/// Command zone, with a grpId and an owner seat.
pub open spec fn commander_key(zones: Map<u32, (Seq<char>, u8)>, obj: JsonValue) -> Option<
    (u8, u32),
> {
    match u64_of(obj.spec_get("zoneId"@)) {
        Some(z) => if zones.contains_key(z as u32) && zones[z as u32].0 == "ZoneType_Command"@ {
            match (u64_of(obj.spec_get("grpId"@)), u64_of(obj.spec_get("ownerSeatId"@))) {
                (Some(g), Some(o)) => Some((o as u8, g as u32)),
                _ => None,
            }
        } else {
            None
        },
        None => None,
    }
}

/// The commanders that a list of game objects shows.
pub open spec fn commander_keys(zones: Map<u32, (Seq<char>, u8)>, os: Seq<JsonValue>) -> Set<
    (u8, u32),
>
    decreases os.len(),
{
    if os.len() == 0 {
        Set::empty()
    } else {
        let rest = commander_keys(zones, os.drop_last());
        match commander_key(zones, os.last()) {
            Some(k) => rest.insert(k),
            None => rest,
        }
    }
}

/// The announcement of commander `k`.
pub open spec fn revealed(k: (u8, u32)) -> GameEventView {
    GameEventView::CommanderRevealed { card_id: k.1, seat_id: k.0 }
}

proof fn lemma_commander_step_by_key(s: GreModel, obj: JsonValue)
    ensures
        commander_step(s, obj) == match commander_key(s.zones, obj) {
            Some(k) => if s.known_commanders.contains(k) {
                (s, Seq::<GameEventView>::empty())
            } else {
                (
                    GreModel { known_commanders: s.known_commanders.insert(k), ..s },
                    seq![revealed(k)],
                )
            },
            None => (s, Seq::<GameEventView>::empty()),
        },
{
    reveal_strlit("ZoneType_Command");
}

proof fn lemma_commanders_fold_known(s: GreModel, os: Seq<JsonValue>)
    requires
        commander_keys(s.zones, os).subset_of(s.known_commanders),
    ensures
        commanders_fold(s, os) == (s, Seq::<GameEventView>::empty()),
    decreases os.len(),
{
    if os.len() > 0 {
        let prev = os.drop_last();
        assert(commander_keys(s.zones, prev).subset_of(s.known_commanders)) by {
            assert forall|k| commander_keys(s.zones, prev).contains(k) implies s.known_commanders.contains(k) by {
                assert(commander_keys(s.zones, os).contains(k));
            }
        }
        lemma_commanders_fold_known(s, prev);
        lemma_commander_step_by_key(s, os.last());
        match commander_key(s.zones, os.last()) {
            Some(k) => {
                assert(commander_keys(s.zones, os).contains(k));
            },
            None => {},
        }
        assert(Seq::<GameEventView>::empty() + Seq::<GameEventView>::empty() =~= Seq::<
            GameEventView,
        >::empty());
    }
}

/// Law: over a whole list of game objects, each commander that the list
/// shows and that was not announced before is announced exactly once, in
/// the order of the list; nothing else is reported or changed, and the
/// same list seen again announces nothing.
pub proof fn law_commanders_announced_once_over_list(s: GreModel, os: Seq<JsonValue>)
    ensures
        ({
            let (s1, es) = commanders_fold(s, os);
            let keys = commander_keys(s.zones, os);
            &&& s1 == GreModel { known_commanders: s1.known_commanders, ..s }
            &&& s1.known_commanders == s.known_commanders.union(keys)
            &&& forall|i: int|
                0 <= i < es.len() ==> exists|k: (u8, u32)|
                    keys.contains(k) && !s.known_commanders.contains(k) && #[trigger] es[i]
                        == revealed(k)
            &&& forall|k: (u8, u32)|
                keys.contains(k) && !s.known_commanders.contains(k) ==> exists|i: int|
                    0 <= i < es.len() && #[trigger] es[i] == revealed(k)
            &&& forall|i: int, j: int| 0 <= i < j < es.len() ==> es[i] != es[j]
            &&& commanders_fold(s1, os).1.len() == 0
        }),
    decreases os.len(),
{
    let (s1, es) = commanders_fold(s, os);
    let keys = commander_keys(s.zones, os);
    if os.len() == 0 {
        assert(s.known_commanders.union(keys) =~= s.known_commanders);
    } else {
        let prev = os.drop_last();
        law_commanders_announced_once_over_list(s, prev);
        let (p1, pe) = commanders_fold(s, prev);
        let pkeys = commander_keys(s.zones, prev);
        lemma_commander_step_by_key(p1, os.last());
        assert(p1.zones == s.zones);
        match commander_key(s.zones, os.last()) {
            Some(k) => {
                assert(keys == pkeys.insert(k));
                if p1.known_commanders.contains(k) {
                    assert(es =~= pe + Seq::<GameEventView>::empty());
                    assert(s1 == p1);
                    assert(s1.known_commanders =~= s.known_commanders.union(keys));
                } else {
                    assert(es == pe + seq![revealed(k)]);
                    assert(s1.known_commanders =~= s.known_commanders.union(keys));
                    assert(!pkeys.contains(k));
                    assert(!s.known_commanders.contains(k));
                    assert forall|i: int| 0 <= i < es.len() implies exists|k2: (u8, u32)|
                        keys.contains(k2) && !s.known_commanders.contains(k2) && #[trigger] es[i]
                            == revealed(k2) by {
                        if i < pe.len() {
                            assert(es[i] == pe[i]);
                            let k2 = choose|k2: (u8, u32)|
                                pkeys.contains(k2) && !s.known_commanders.contains(k2)
                                    && #[trigger] pe[i] == revealed(k2);
                            assert(keys.contains(k2));
                        } else {
                            assert(es[i] == revealed(k));
                        }
                    }
                    assert forall|k2: (u8, u32)|
                        keys.contains(k2) && !s.known_commanders.contains(k2) implies exists|i: int|
                        0 <= i < es.len() && #[trigger] es[i] == revealed(k2) by {
                        if k2 == k {
                            assert(es[pe.len() as int] == revealed(k));
                        } else {
                            assert(pkeys.contains(k2));
                            let i = choose|i: int| 0 <= i < pe.len() && #[trigger] pe[i] == revealed(k2);
                            assert(es[i] == pe[i]);
                        }
                    }
                    assert forall|i: int, j: int| 0 <= i < j < es.len() implies es[i] != es[j] by {
                        if j == pe.len() {
                            assert(es[i] == pe[i]);
                            let k2 = choose|k2: (u8, u32)|
                                pkeys.contains(k2) && !s.known_commanders.contains(k2)
                                    && #[trigger] pe[i] == revealed(k2);
                            assert(es[j] == revealed(k));
                            if pe[i] == revealed(k) {
                                assert(k2 == k);
                            }
                        } else {
                            assert(es[i] == pe[i]);
                            assert(es[j] == pe[j]);
                        }
                    }
                }
            },
            None => {
                assert(keys == pkeys);
                assert(es =~= pe + Seq::<GameEventView>::empty());
            },
        }
    }
    assert(keys.subset_of(s1.known_commanders));
    assert(s1.zones == s.zones);
    lemma_commanders_fold_known(s1, os);
}

/// Law: a zone transfer reports the move itself first; then a
/// `CommanderCast` exactly when the card goes from the command zone to the
/// stack (counting the cast), or a `CommanderReturned` exactly when it goes
/// from the graveyard or exile to the command zone after having been cast
/// this match; never both, and nothing else. Only a cast changes the state.
pub proof fn law_transfer_events(
    s: GreModel,
    iid: u32,
    card: u32,
    src_type: Seq<char>,
    src_owner: u8,
    dst_type: Seq<char>,
)
    ensures
        ({
            let (s1, es) = transfer_outcome(s, iid, card, src_type, src_owner, dst_type);
            let owner = moved_owner(s, iid, src_owner);
            let cast = src_type == "ZoneType_Command"@ && dst_type == "ZoneType_Stack"@;
            let returned = dst_type == "ZoneType_Command"@ && (src_type == "ZoneType_Graveyard"@
                || src_type == "ZoneType_Exile"@) && s.commander_casts.contains_key(card);
            let count = next_cast_count(s.commander_casts, card);
            &&& !(cast && returned)
            &&& es[0] == (GameEventView::ZoneChanged {
                instance_id: iid,
                card_id: card,
                from_zone: Zone::of_name(src_type),
                to_zone: Zone::of_name(dst_type),
                owner_seat_id: owner,
                face_down: moved_face_down(s, iid, dst_type),
            })
            &&& es.len() == 1 + (if cast || returned {
                1int
            } else {
                0
            })
            &&& cast ==> es[1] == (GameEventView::CommanderCast {
                card_id: card,
                seat_id: owner,
                cast_count: count,
                tax: double_u8(count),
            }) && s1 == (GreModel { commander_casts: s.commander_casts.insert(card, count), ..s })
            &&& returned ==> es[1] == (GameEventView::CommanderReturned {
                card_id: card,
                seat_id: owner,
            })
            &&& !cast ==> s1 == s
        }),
{
    reveal_strlit("ZoneType_Command");
    reveal_strlit("ZoneType_Stack");
    assert("ZoneType_Stack"@ != "ZoneType_Command"@) by {
        assert("ZoneType_Stack"@.len() != "ZoneType_Command"@.len());
    }
}

/// No event of `es` is a `PlayedFirst`.
pub open spec fn no_played_first(es: Seq<GameEventView>) -> bool {
    forall|i: int| 0 <= i < es.len() ==> !(#[trigger] es[i] is PlayedFirst)
}

/// `b` has the game number and the played-first mark of `a`.
pub open spec fn same_turn_state(a: GreModel, b: GreModel) -> bool {
    a.game_number == b.game_number && a.played_first_reported == b.played_first_reported
}

proof fn lemma_no_played_first_concat(a: Seq<GameEventView>, b: Seq<GameEventView>)
    requires
        no_played_first(a),
        no_played_first(b),
    ensures
        no_played_first(a + b),
{
    assert forall|i: int| 0 <= i < (a + b).len() implies !(#[trigger] (a + b)[i] is PlayedFirst) by {
        if i < a.len() {
            assert((a + b)[i] == a[i]);
        } else {
            assert((a + b)[i] == b[i - a.len()]);
        }
    }
}

proof fn lemma_zones_fold_keeps(s: GreModel, zs: Seq<JsonValue>)
    ensures
        same_turn_state(s, zones_fold(s, zs)),
    decreases zs.len(),
{
    if zs.len() > 0 {
        lemma_zones_fold_keeps(s, zs.drop_last());
    }
}

proof fn lemma_objects_fold_keeps(s: GreModel, os: Seq<JsonValue>)
    ensures
        same_turn_state(s, objects_fold(s, os)),
    decreases os.len(),
{
    if os.len() > 0 {
        lemma_objects_fold_keeps(s, os.drop_last());
    }
}

proof fn lemma_forget_fold_keeps(s: GreModel, ids: Seq<JsonValue>)
    ensures
        same_turn_state(s, forget_fold(s, ids)),
    decreases ids.len(),
{
    if ids.len() > 0 {
        lemma_forget_fold_keeps(s, ids.drop_last());
    }
}

proof fn lemma_maps_updated_keeps(s: GreModel, gs: JsonValue)
    ensures
        same_turn_state(s, maps_updated(s, gs)),
{
    match array_of(gs.spec_get("zones"@)) {
        Some(zs) => lemma_zones_fold_keeps(s, zs),
        None => {},
    }
    let s1 = match array_of(gs.spec_get("zones"@)) {
        Some(zs) => zones_fold(s, zs),
        None => s,
    };
    match array_of(gs.spec_get("gameObjects"@)) {
        Some(os) => lemma_objects_fold_keeps(s1, os),
        None => {},
    }
}

proof fn lemma_commanders_of_keeps(s: GreModel, gs: JsonValue)
    ensures
        same_turn_state(s, commanders_of(s, gs).0),
        no_played_first(commanders_of(s, gs).1),
{
    match array_of(gs.spec_get("gameObjects"@)) {
        Some(os) => {
            law_commanders_announced_once_over_list(s, os);
            let es = commanders_fold(s, os).1;
            assert forall|i: int| 0 <= i < es.len() implies !(#[trigger] es[i] is PlayedFirst) by {
                let k = choose|k: (u8, u32)|
                    commander_keys(s.zones, os).contains(k) && !s.known_commanders.contains(k)
                        && #[trigger] es[i] == revealed(k);
            }
        },
        None => {},
    }
}

proof fn lemma_annotation_step_keeps(s: GreModel, ann: JsonValue)
    ensures
        same_turn_state(s, annotation_step(s, ann).0),
        no_played_first(annotation_step(s, ann).1),
{
    match array_of(ann.spec_get("type"@)) {
        Some(types) => if has_type(types, "AnnotationType_ZoneTransfer"@) {
            match (
                u64_of(first_of(array_of(ann.spec_get("affectedIds"@)))),
                array_of(ann.spec_get("details"@)),
            ) {
                (Some(iid64), Some(details)) => match (
                    int_detail_from(details, "zone_src"@, 0),
                    int_detail_from(details, "zone_dest"@, 0),
                ) {
                    (Some(src64), Some(dst64)) => {
                        let iid = iid64 as u32;
                        let src = src64 as u32;
                        let dst = dst64 as u32;
                        if s.zones.contains_key(src) && s.zones.contains_key(dst)
                            && s.instances.contains_key(iid) {
                            law_transfer_events(
                                s,
                                iid,
                                s.instances[iid],
                                s.zones[src].0,
                                s.zones[src].1,
                                s.zones[dst].0,
                            );
                        }
                    },
                    _ => {},
                },
                _ => {},
            }
        } else if has_type(types, "AnnotationType_Shuffle"@) {
            match array_of(ann.spec_get("details"@)) {
                Some(details) => match old_ids_from(details, 0) {
                    Some(ids) => lemma_forget_fold_keeps(s, ids),
                    None => {},
                },
                None => {},
            }
        },
        None => {},
    }
}

proof fn lemma_annotations_fold_keeps(s: GreModel, anns: Seq<JsonValue>)
    ensures
        same_turn_state(s, annotations_fold(s, anns).0),
        no_played_first(annotations_fold(s, anns).1),
    decreases anns.len(),
{
    if anns.len() > 0 {
        lemma_annotations_fold_keeps(s, anns.drop_last());
        let (s1, e1) = annotations_fold(s, anns.drop_last());
        lemma_annotation_step_keeps(s1, anns.last());
        lemma_no_played_first_concat(e1, annotation_step(s1, anns.last()).1);
    }
}

proof fn lemma_syncs_fold_no_played_first(s: GreModel, os: Seq<JsonValue>, zs: Seq<JsonValue>)
    ensures
        no_played_first(syncs_fold(s, os, zs)),
    decreases zs.len(),
{
    if zs.len() > 0 {
        lemma_syncs_fold_no_played_first(s, os, zs.drop_last());
        lemma_no_played_first_concat(
            syncs_fold(s, os, zs.drop_last()),
            opt_events(zone_sync(s, os, zs.last())),
        );
    }
}

/// Law: who plays first is reported once per match. A game state reports
/// `PlayedFirst` only as its last event, only in game 1 and only when it
/// was not reported before, and marks it reported; once reported, no game
/// state reports it again. A game state never changes the game number.
pub proof fn law_played_first_once_per_match(s: GreModel, msg: JsonValue)
    ensures
        ({
            let (s1, es) = game_state_step(s, msg);
            &&& s1.game_number == s.game_number
            &&& s.played_first_reported ==> s1.played_first_reported && no_played_first(es)
            &&& forall|i: int|
                0 <= i < es.len() && (#[trigger] es[i] is PlayedFirst) ==> i == es.len() - 1
                    && !s.played_first_reported && s.game_number == 1 && s1.played_first_reported
        }),
        ({
            let (s1, es) = game_state_step(s, msg);
            let ti = field(msg.spec_get("gameStateMessage"@), "turnInfo"@);
            (msg.spec_get("gameStateMessage"@) is Some && u64_of(field(ti, "turnNumber"@)) == Some(
                1u64,
            ) && u64_of(field(ti, "activePlayer"@)) is Some && s.game_number == 1
                && !s.played_first_reported) ==> es.last() == (GameEventView::PlayedFirst {
                seat_id: u64_of(field(ti, "activePlayer"@))->0 as u8,
            })
        }),
{
    match msg.spec_get("gameStateMessage"@) {
        Some(gs) => {
            let update_type = match str_of(gs.spec_get("type"@)) {
                Some(t) => t,
                None => ""@,
            };
            let (s2, e2, e3, s3) = if update_type == "GameStateType_Full"@ {
                let m = maps_updated(maps_cleared(s), gs);
                lemma_maps_updated_keeps(maps_cleared(s), gs);
                lemma_commanders_of_keeps(m, gs);
                let (s2, e2) = commanders_of(m, gs);
                match array_of(gs.spec_get("zones"@)) {
                    Some(zs) => lemma_syncs_fold_no_played_first(s2, objects_of(gs), zs),
                    None => {},
                }
                (s2, e2, zone_syncs_of(s2, gs), s2)
            } else {
                let m = maps_updated(s, gs);
                lemma_maps_updated_keeps(s, gs);
                lemma_commanders_of_keeps(m, gs);
                let (s2, e2) = commanders_of(m, gs);
                match array_of(gs.spec_get("annotations"@)) {
                    Some(anns) => lemma_annotations_fold_keeps(s2, anns),
                    None => {},
                }
                let (s3, e3) = annotations_of(s2, gs);
                (s2, e2, e3, s3)
            };
            assert(same_turn_state(s, s3));
            lemma_no_played_first_concat(e2, e3);
            let (s4, e4) = played_first_step(s3, gs);
            assert(game_state_step(s, msg) == (s4, e2 + e3 + e4));
            let es = e2 + e3 + e4;
            assert forall|i: int|
                0 <= i < es.len() && (#[trigger] es[i] is PlayedFirst) implies i == es.len() - 1
                && !s.played_first_reported && s.game_number == 1 && s4.played_first_reported by {
                if i < (e2 + e3).len() {
                    assert(es[i] == (e2 + e3)[i]);
                } else {
                    assert(es[i] == e4[i - (e2 + e3).len()]);
                }
            }
            if s.played_first_reported {
                assert(e4.len() == 0);
                assert(es =~= e2 + e3);
            }
        },
        None => {},
    }
}

/// Law: a second look at the same game state's objects announces no
/// commander.
pub proof fn law_commanders_of_repeat_silent(s: GreModel, gs: JsonValue)
    ensures
        commanders_of(commanders_of(s, gs).0, gs).1.len() == 0,
{
    match array_of(gs.spec_get("gameObjects"@)) {
        Some(os) => law_commanders_announced_once_over_list(s, os),
        None => {},
    }
}

/// A zone transfer as `transfer_outcome` takes it: instance, card, source
/// zone type, source zone owner, destination zone type.
pub type Transfer = (u32, u32, Seq<char>, u8, Seq<char>);

/// The state and events after a sequence of zone transfers.
pub open spec fn transfers_fold(s: GreModel, ts: Seq<Transfer>) -> (GreModel, Seq<GameEventView>)
    decreases ts.len(),
{
    if ts.len() == 0 {
        (s, Seq::empty())
    } else {
        let (s1, e1) = transfers_fold(s, ts.drop_last());
        let t = ts.last();
        let (s2, e2) = transfer_outcome(s1, t.0, t.1, t.2, t.3, t.4);
        (s2, e1 + e2)
    }
}

/// The number of transfers of `card` from the command zone to the stack.
pub open spec fn casts_of(ts: Seq<Transfer>, card: u32) -> nat
    decreases ts.len(),
{
    if ts.len() == 0 {
        0
    } else {
        let t = ts.last();
        casts_of(ts.drop_last(), card) + if t.1 == card && t.2 == "ZoneType_Command"@ && t.4
            == "ZoneType_Stack"@ {
            1nat
        } else {
            0nat
        }
    }
}

/// Law: over a match, the cast count of a commander is the number of its
/// transfers from the command zone to the stack so far (while that fits
/// the counter), so the n-th cast reports `cast_count` n and tax 2n, and a
/// return to the command zone is reported only after some cast.
pub proof fn law_cast_count_over_transfers(s: GreModel, ts: Seq<Transfer>, card: u32)
    requires
        !s.commander_casts.contains_key(card),
        casts_of(ts, card) <= 255,
    ensures
        transfers_fold(s, ts).0.commander_casts.contains_key(card) <==> casts_of(ts, card) > 0,
        casts_of(ts, card) > 0 ==> transfers_fold(s, ts).0.commander_casts[card] == casts_of(
            ts,
            card,
        ),
    decreases ts.len(),
{
    if ts.len() > 0 {
        let prev = ts.drop_last();
        law_cast_count_over_transfers(s, prev, card);
        let s1 = transfers_fold(s, prev).0;
        let t = ts.last();
        law_transfer_events(s1, t.0, t.1, t.2, t.3, t.4);
    }
}

/// Law: the events of GRE documents read one after another are those of
/// the first documents followed by those of the rest, from the state the
/// first ones leave.
pub proof fn law_roots_fold_concat(s: GreModel, a: Seq<JsonValue>, b: Seq<JsonValue>)
    ensures
        ({
            let (s1, e1) = roots_fold(s, a);
            let (s2, e2) = roots_fold(s1, b);
            roots_fold(s, a + b) == (s2, e1 + e2)
        }),
    decreases b.len(),
{
    let (s1, e1) = roots_fold(s, a);
    if b.len() == 0 {
        assert(a + b =~= a);
        assert(e1 + Seq::<GameEventView>::empty() =~= e1);
    } else {
        let bp = b.drop_last();
        law_roots_fold_concat(s, a, bp);
        assert((a + b).drop_last() =~= a + bp);
        assert((a + b).last() == b.last());
        let (sp, ep) = roots_fold(s1, bp);
        let (s3, e3) = root_step(sp, b.last());
        assert(e1 + ep + e3 =~= e1 + (ep + e3));
    }
}

/// Object `obj` is a card `g` of seat `seat` lying in a zone of type
/// `ztype`, as the snapshot's zone map and the object's own fields say.
pub open spec fn seat_card_in(
    zones: Map<u32, (Seq<char>, u8)>,
    obj: JsonValue,
    seat: u8,
    ztype: Seq<char>,
    g: u32,
) -> bool {
    &&& u64_of(obj.spec_get("zoneId"@)) matches Some(z)
    &&& zones.contains_key(z as u32)
    &&& zones[z as u32].0 == ztype
    &&& u64_of(obj.spec_get("ownerSeatId"@)) matches Some(w)
    &&& w as u8 == seat
    &&& u64_of(obj.spec_get("grpId"@)) matches Some(x)
    &&& x as u32 == g
}

proof fn lemma_seat_cards_members(
    zones: Map<u32, (Seq<char>, u8)>,
    os: Seq<JsonValue>,
    seat: u8,
    ztype: Seq<char>,
)
    ensures
        forall|g: u32|
            #[trigger] seat_cards(zones, os, seat, ztype).contains(g) <==> exists|i: int|
                0 <= i < os.len() && seat_card_in(zones, #[trigger] os[i], seat, ztype, g),
    decreases os.len(),
{
    if os.len() > 0 {
        let prev = os.drop_last();
        lemma_seat_cards_members(zones, prev, seat, ztype);
        let rest = seat_cards(zones, prev, seat, ztype);
        let r = seat_cards(zones, os, seat, ztype);
        let o = os.last();
        assert forall|g: u32|
            #[trigger] r.contains(g) <==> exists|i: int|
                0 <= i < os.len() && seat_card_in(zones, #[trigger] os[i], seat, ztype, g) by {
            if r.contains(g) {
                let j = choose|j: int| 0 <= j < r.len() && r[j] == g;
                if j < rest.len() && (r == rest || r == rest.push(r.last())) {
                    assert(r[j] == rest[j]);
                    assert(rest.contains(g));
                    let i = choose|i: int|
                        0 <= i < prev.len() && seat_card_in(zones, #[trigger] prev[i], seat, ztype, g);
                    assert(os[i] == prev[i]);
                } else {
                    assert(seat_card_in(zones, os[os.len() - 1], seat, ztype, g));
                }
            }
            if exists|i: int| 0 <= i < os.len() && seat_card_in(zones, #[trigger] os[i], seat, ztype, g) {
                let i = choose|i: int|
                    0 <= i < os.len() && seat_card_in(zones, #[trigger] os[i], seat, ztype, g);
                if i < prev.len() {
                    assert(prev[i] == os[i]);
                    assert(rest.contains(g));
                    let j = choose|j: int| 0 <= j < rest.len() && rest[j] == g;
                    assert(r[j] == g);
                } else {
                    assert(os[i] == o);
                    assert(r[r.len() - 1] == g);
                }
            }
        }
    }
}

/// Law: the `ZoneStateSync` of a library zone belongs to the library's
/// owner, and each of its lists holds exactly the cards of that seat whose
/// zone has the list's type: the hand list the cards in a Hand zone, the
/// battlefield list those on a Battlefield, the graveyard list those in a
/// Graveyard, the exile list those in Exile, the stack list those on the
/// Stack.
pub proof fn law_zone_sync_lists_by_zone_type(s: GreModel, os: Seq<JsonValue>, zone: JsonValue, g: u32)
    ensures
        zone_sync(s, os, zone) matches Some(ev) ==> ev matches GameEventView::ZoneStateSync {
            seat_id,
            hand,
            battlefield,
            graveyard,
            exile,
            stack,
            ..
        } && seat_id == (match u64_of(zone.spec_get("ownerSeatId"@)) {
            Some(o) => o as u8,
            None => 0u8,
        }) && (hand.contains(g) <==> exists|i: int|
            0 <= i < os.len() && seat_card_in(s.zones, #[trigger] os[i], seat_id, "ZoneType_Hand"@, g))
            && (battlefield.contains(g) <==> exists|i: int|
            0 <= i < os.len() && seat_card_in(
                s.zones,
                #[trigger] os[i],
                seat_id,
                "ZoneType_Battlefield"@,
                g,
            )) && (graveyard.contains(g) <==> exists|i: int|
            0 <= i < os.len() && seat_card_in(
                s.zones,
                #[trigger] os[i],
                seat_id,
                "ZoneType_Graveyard"@,
                g,
            )) && (exile.contains(g) <==> exists|i: int|
            0 <= i < os.len() && seat_card_in(s.zones, #[trigger] os[i], seat_id, "ZoneType_Exile"@, g))
            && (stack.contains(g) <==> exists|i: int|
            0 <= i < os.len() && seat_card_in(s.zones, #[trigger] os[i], seat_id, "ZoneType_Stack"@, g)),
{
    let seat: u8 = match u64_of(zone.spec_get("ownerSeatId"@)) {
        Some(o) => o as u8,
        None => 0,
    };
    lemma_seat_cards_members(s.zones, os, seat, "ZoneType_Hand"@);
    lemma_seat_cards_members(s.zones, os, seat, "ZoneType_Battlefield"@);
    lemma_seat_cards_members(s.zones, os, seat, "ZoneType_Graveyard"@);
    lemma_seat_cards_members(s.zones, os, seat, "ZoneType_Exile"@);
    lemma_seat_cards_members(s.zones, os, seat, "ZoneType_Stack"@);
}

} // verus!
