//! The character record: named fields at fixed byte offsets of a decrypted
//! character payload. Every byte outside the named fields is opaque and is
//! carried over unchanged when a record is written back.

use crate::bytes::{
    le_byte, lemma_u16_round_trip, lemma_u32_round_trip, lemma_u64_round_trip, read_u32_le,
    read_u64_le, u32_at, u64_at, write_le,
};
use crate::error::FormatError;
use crate::utf16::{
    field_byte, field_text, field_units, field_units_of, fits_field, lemma_field_round_trip,
    read_field, units_at,
};
use vstd::prelude::*;

verus! {

/// Byte offset of `health_current`.
pub const HEALTH_CURRENT_AT: usize = 116;

/// Byte offset of `health_max1`.
pub const HEALTH_MAX1_AT: usize = 120;

/// Byte offset of `health_max2`.
pub const HEALTH_MAX2_AT: usize = 124;

/// Byte offset of `stamina2`.
pub const STAMINA2_AT: usize = 164;

/// Byte offset of `stamina3`.
pub const STAMINA3_AT: usize = 168;

/// Byte offset of `vitality`.
pub const VITALITY_AT: usize = 176;

/// Byte offset of `attunement`.
pub const ATTUNEMENT_AT: usize = 184;

/// Byte offset of `endurance`.
pub const ENDURANCE_AT: usize = 192;

/// Byte offset of `strength`.
pub const STRENGTH_AT: usize = 200;

/// Byte offset of `dexterity`.
pub const DEXTERITY_AT: usize = 208;

/// Byte offset of `intelligence`.
pub const INTELLIGENCE_AT: usize = 216;

/// Byte offset of `faith`.
pub const FAITH_AT: usize = 224;

/// Byte offset of `humanity`.
pub const HUMANITY_AT: usize = 240;

/// Byte offset of `resistance`.
pub const RESISTANCE_AT: usize = 248;

/// Byte offset of `level`.
pub const LEVEL_AT: usize = 256;

/// Byte offset of `souls`.
pub const SOULS_AT: usize = 260;

/// Byte offset of `earned_souls`.
pub const EARNED_SOULS_AT: usize = 264;

/// Byte offset of `soul_state`.
pub const SOUL_STATE_AT: usize = 276;

/// Byte offset of `name`.
pub const NAME_AT: usize = 280;

/// Byte offset of `is_male`.
pub const IS_MALE_AT: usize = 317;

/// Byte offset of `character_class`.
pub const CHARACTER_CLASS_AT: usize = 318;

/// Byte offset of `body_type`.
pub const BODY_TYPE_AT: usize = 319;

/// Byte offset of `starting_gift`.
pub const STARTING_GIFT_AT: usize = 320;

/// Byte offset of `poison_resistance`.
pub const POISON_RESISTANCE_AT: usize = 384;

/// Byte offset of `bleeding_resistance`.
pub const BLEEDING_RESISTANCE_AT: usize = 385;

/// Byte offset of `poison_resistance2`.
pub const POISON_RESISTANCE2_AT: usize = 386;

/// Byte offset of `damnation_resistance`.
pub const DAMNATION_RESISTANCE_AT: usize = 387;

/// Byte offset of `face`.
pub const FACE_AT: usize = 388;

/// Byte offset of `hair`.
pub const HAIR_AT: usize = 389;

/// Byte offset of `hair_color`.
pub const HAIR_COLOR_AT: usize = 390;

/// Byte offset of `deaths`.
pub const DEATHS_AT: usize = 127448;

/// The number of UTF-16 code units in the name field.
pub const NAME_UNITS: usize = 14;

/// The length a payload must have to hold every named field: the end of
/// `deaths`, which stands far behind the others.
pub const RECORD_END: usize = 127452;

/// The raw value that stands for the human state.
pub const SOUL_HUMAN: u32 = 0;

/// The raw value that stands for the hollow state.
pub const SOUL_HOLLOW: u32 = 8;

/// The raw value written for the unknown state. Every raw value but those of
/// the two known states reads as unknown; which one it was is not kept, and
/// this one is written in its place.
pub const SOUL_UNKNOWN: u32 = 4;

/// Whether the character is human or hollow.
#[derive(Clone, Copy, Debug, PartialEq, Eq)]
pub enum SoulState {
    /// The character is hollow.
    Hollow,
    /// The character is human.
    Human,
    /// The payload holds a raw value that stands for neither.
    Unknown,
}

/// The state that a raw value stands for.
pub open spec fn soul_state_of(raw: u32) -> SoulState {
    if raw == SOUL_HUMAN {
        SoulState::Human
    } else if raw == SOUL_HOLLOW {
        SoulState::Hollow
    } else {
        SoulState::Unknown
    }
}

/// The raw value written for a state.
pub open spec fn soul_state_raw(state: SoulState) -> u32 {
    match state {
        SoulState::Human => SOUL_HUMAN,
        SoulState::Hollow => SOUL_HOLLOW,
        SoulState::Unknown => SOUL_UNKNOWN,
    }
}

impl SoulState {
    /// The state that a raw value stands for.
    pub fn from_raw(raw: u32) -> (state: SoulState)
        ensures
            state == soul_state_of(raw),
    {
        if raw == SOUL_HUMAN {
            SoulState::Human
        } else if raw == SOUL_HOLLOW {
            SoulState::Hollow
        } else {
            SoulState::Unknown
        }
    }

    /// The raw value written for this state.
    pub fn to_raw(&self) -> (raw: u32)
        ensures
            raw == soul_state_raw(*self),
            soul_state_of(raw) == *self,
    {
        match self {
            SoulState::Human => SOUL_HUMAN,
            SoulState::Hollow => SOUL_HOLLOW,
            SoulState::Unknown => SOUL_UNKNOWN,
        }
    }
}

/// The named fields of a character.
#[derive(Clone, Debug)]
pub struct CharacterStats {
    /// Current health.
    pub health_current: u32,
    /// Maximum health, first copy.
    pub health_max1: u32,
    /// Maximum health, second copy.
    pub health_max2: u32,
    /// Stamina, second value.
    pub stamina2: u32,
    /// Stamina, third value.
    pub stamina3: u64,
    /// Vitality.
    pub vitality: u64,
    /// Attunement.
    pub attunement: u64,
    /// Endurance.
    pub endurance: u64,
    /// Strength.
    pub strength: u64,
    /// Dexterity.
    pub dexterity: u64,
    /// Intelligence.
    pub intelligence: u64,
    /// Faith.
    pub faith: u64,
    /// Humanity.
    pub humanity: u64,
    /// Resistance.
    pub resistance: u64,
    /// Soul level.
    pub level: u32,
    /// Souls held.
    pub souls: u32,
    /// Souls earned in all.
    pub earned_souls: u64,
    /// Human or hollow.
    pub soul_state: SoulState,
    /// The character's name.
    pub name: String,
    /// Whether the character is male.
    pub is_male: bool,
    /// Starting class.
    pub character_class: u8,
    /// Body type.
    pub body_type: u8,
    /// Starting gift.
    pub starting_gift: u8,
    /// Poison resistance.
    pub poison_resistance: u8,
    /// Bleeding resistance.
    pub bleeding_resistance: u8,
    /// Poison resistance, second value.
    pub poison_resistance2: u8,
    /// Curse resistance.
    pub damnation_resistance: u8,
    /// Face preset.
    pub face: u8,
    /// Hair style.
    pub hair: u8,
    /// Hair colour.
    pub hair_color: u8,
    /// Number of deaths.
    pub deaths: u32,
}

/// A character's fields as plain values: the record's mathematical model.
pub struct StatsModel {
    pub health_current: u32,
    pub health_max1: u32,
    pub health_max2: u32,
    pub stamina2: u32,
    pub stamina3: u64,
    pub vitality: u64,
    pub attunement: u64,
    pub endurance: u64,
    pub strength: u64,
    pub dexterity: u64,
    pub intelligence: u64,
    pub faith: u64,
    pub humanity: u64,
    pub resistance: u64,
    pub level: u32,
    pub souls: u32,
    pub earned_souls: u64,
    pub soul_state: SoulState,
    pub name: Seq<char>,
    pub is_male: bool,
    pub character_class: u8,
    pub body_type: u8,
    pub starting_gift: u8,
    pub poison_resistance: u8,
    pub bleeding_resistance: u8,
    pub poison_resistance2: u8,
    pub damnation_resistance: u8,
    pub face: u8,
    pub hair: u8,
    pub hair_color: u8,
    pub deaths: u32,
}

impl View for CharacterStats {
    type V = StatsModel;

    open spec fn view(&self) -> StatsModel {
        StatsModel {
            health_current: self.health_current,
            health_max1: self.health_max1,
            health_max2: self.health_max2,
            stamina2: self.stamina2,
            stamina3: self.stamina3,
            vitality: self.vitality,
            attunement: self.attunement,
            endurance: self.endurance,
            strength: self.strength,
            dexterity: self.dexterity,
            intelligence: self.intelligence,
            faith: self.faith,
            humanity: self.humanity,
            resistance: self.resistance,
            level: self.level,
            souls: self.souls,
            earned_souls: self.earned_souls,
            soul_state: self.soul_state,
            name: self.name@,
            is_male: self.is_male,
            character_class: self.character_class,
            body_type: self.body_type,
            starting_gift: self.starting_gift,
            poison_resistance: self.poison_resistance,
            bleeding_resistance: self.bleeding_resistance,
            poison_resistance2: self.poison_resistance2,
            damnation_resistance: self.damnation_resistance,
            face: self.face,
            hair: self.hair,
            hair_color: self.hair_color,
            deaths: self.deaths,
        }
    }
}

/// `i` lies in the `width` bytes that start at `off`.
pub open spec fn within(i: int, off: int, width: int) -> bool {
    off <= i < off + width
}

/// `i` is the offset of a byte of one of the named fields.
pub open spec fn is_field_byte(i: int) -> bool {
    ||| within(i, HEALTH_CURRENT_AT as int, 4)
    ||| within(i, HEALTH_MAX1_AT as int, 4)
    ||| within(i, HEALTH_MAX2_AT as int, 4)
    ||| within(i, STAMINA2_AT as int, 4)
    ||| within(i, STAMINA3_AT as int, 8)
    ||| within(i, VITALITY_AT as int, 8)
    ||| within(i, ATTUNEMENT_AT as int, 8)
    ||| within(i, ENDURANCE_AT as int, 8)
    ||| within(i, STRENGTH_AT as int, 8)
    ||| within(i, DEXTERITY_AT as int, 8)
    ||| within(i, INTELLIGENCE_AT as int, 8)
    ||| within(i, FAITH_AT as int, 8)
    ||| within(i, HUMANITY_AT as int, 8)
    ||| within(i, RESISTANCE_AT as int, 8)
    ||| within(i, LEVEL_AT as int, 4)
    ||| within(i, SOULS_AT as int, 4)
    ||| within(i, EARNED_SOULS_AT as int, 8)
    ||| within(i, SOUL_STATE_AT as int, 4)
    ||| within(i, NAME_AT as int, 28)
    ||| within(i, IS_MALE_AT as int, 1)
    ||| within(i, CHARACTER_CLASS_AT as int, 1)
    ||| within(i, BODY_TYPE_AT as int, 1)
    ||| within(i, STARTING_GIFT_AT as int, 1)
    ||| within(i, POISON_RESISTANCE_AT as int, 1)
    ||| within(i, BLEEDING_RESISTANCE_AT as int, 1)
    ||| within(i, POISON_RESISTANCE2_AT as int, 1)
    ||| within(i, DAMNATION_RESISTANCE_AT as int, 1)
    ||| within(i, FACE_AT as int, 1)
    ||| within(i, HAIR_AT as int, 1)
    ||| within(i, HAIR_COLOR_AT as int, 1)
    ||| within(i, DEATHS_AT as int, 4)
}

/// The name that the name field of `payload` holds: the text in front of the
/// first zero code unit, and the empty text where that is not UTF-16.
pub open spec fn name_of(payload: Seq<u8>) -> Seq<char> {
    match field_text(payload, NAME_AT as int, NAME_UNITS as int) {
        Some(text) => text,
        None => Seq::empty(),
    }
}

/// The record that a payload of at least `RECORD_END` bytes holds.
pub open spec fn record_of(payload: Seq<u8>) -> StatsModel {
    StatsModel {
        health_current: u32_at(payload, HEALTH_CURRENT_AT as int),
        health_max1: u32_at(payload, HEALTH_MAX1_AT as int),
        health_max2: u32_at(payload, HEALTH_MAX2_AT as int),
        stamina2: u32_at(payload, STAMINA2_AT as int),
        stamina3: u64_at(payload, STAMINA3_AT as int),
        vitality: u64_at(payload, VITALITY_AT as int),
        attunement: u64_at(payload, ATTUNEMENT_AT as int),
        endurance: u64_at(payload, ENDURANCE_AT as int),
        strength: u64_at(payload, STRENGTH_AT as int),
        dexterity: u64_at(payload, DEXTERITY_AT as int),
        intelligence: u64_at(payload, INTELLIGENCE_AT as int),
        faith: u64_at(payload, FAITH_AT as int),
        humanity: u64_at(payload, HUMANITY_AT as int),
        resistance: u64_at(payload, RESISTANCE_AT as int),
        level: u32_at(payload, LEVEL_AT as int),
        souls: u32_at(payload, SOULS_AT as int),
        earned_souls: u64_at(payload, EARNED_SOULS_AT as int),
        soul_state: soul_state_of(u32_at(payload, SOUL_STATE_AT as int)),
        name: name_of(payload),
        is_male: payload[IS_MALE_AT as int] == 1,
        character_class: payload[CHARACTER_CLASS_AT as int],
        body_type: payload[BODY_TYPE_AT as int],
        starting_gift: payload[STARTING_GIFT_AT as int],
        poison_resistance: payload[POISON_RESISTANCE_AT as int],
        bleeding_resistance: payload[BLEEDING_RESISTANCE_AT as int],
        poison_resistance2: payload[POISON_RESISTANCE2_AT as int],
        damnation_resistance: payload[DAMNATION_RESISTANCE_AT as int],
        face: payload[FACE_AT as int],
        hair: payload[HAIR_AT as int],
        hair_color: payload[HAIR_COLOR_AT as int],
        deaths: u32_at(payload, DEATHS_AT as int),
    }
}

/// Byte `i` of a payload into which the record `m` has been written: the byte
/// of the named field that `i` lies in, and the payload's own byte elsewhere.
pub open spec fn overlay_byte(m: StatsModel, payload: Seq<u8>, i: int) -> u8 {
    if within(i, HEALTH_CURRENT_AT as int, 4) {
        le_byte(m.health_current as int, i - HEALTH_CURRENT_AT)
    } else if within(i, HEALTH_MAX1_AT as int, 4) {
        le_byte(m.health_max1 as int, i - HEALTH_MAX1_AT)
    } else if within(i, HEALTH_MAX2_AT as int, 4) {
        le_byte(m.health_max2 as int, i - HEALTH_MAX2_AT)
    } else if within(i, STAMINA2_AT as int, 4) {
        le_byte(m.stamina2 as int, i - STAMINA2_AT)
    } else if within(i, STAMINA3_AT as int, 8) {
        le_byte(m.stamina3 as int, i - STAMINA3_AT)
    } else if within(i, VITALITY_AT as int, 8) {
        le_byte(m.vitality as int, i - VITALITY_AT)
    } else if within(i, ATTUNEMENT_AT as int, 8) {
        le_byte(m.attunement as int, i - ATTUNEMENT_AT)
    } else if within(i, ENDURANCE_AT as int, 8) {
        le_byte(m.endurance as int, i - ENDURANCE_AT)
    } else if within(i, STRENGTH_AT as int, 8) {
        le_byte(m.strength as int, i - STRENGTH_AT)
    } else if within(i, DEXTERITY_AT as int, 8) {
        le_byte(m.dexterity as int, i - DEXTERITY_AT)
    } else if within(i, INTELLIGENCE_AT as int, 8) {
        le_byte(m.intelligence as int, i - INTELLIGENCE_AT)
    } else if within(i, FAITH_AT as int, 8) {
        le_byte(m.faith as int, i - FAITH_AT)
    } else if within(i, HUMANITY_AT as int, 8) {
        le_byte(m.humanity as int, i - HUMANITY_AT)
    } else if within(i, RESISTANCE_AT as int, 8) {
        le_byte(m.resistance as int, i - RESISTANCE_AT)
    } else if within(i, LEVEL_AT as int, 4) {
        le_byte(m.level as int, i - LEVEL_AT)
    } else if within(i, SOULS_AT as int, 4) {
        le_byte(m.souls as int, i - SOULS_AT)
    } else if within(i, EARNED_SOULS_AT as int, 8) {
        le_byte(m.earned_souls as int, i - EARNED_SOULS_AT)
    } else if within(i, SOUL_STATE_AT as int, 4) {
        le_byte(soul_state_raw(m.soul_state) as int, i - SOUL_STATE_AT)
    } else if within(i, NAME_AT as int, 28) {
        field_byte(m.name, NAME_UNITS as int, i - NAME_AT)
    } else if within(i, IS_MALE_AT as int, 1) {
        if m.is_male {
            1u8
        } else {
            0u8
        }
    } else if within(i, CHARACTER_CLASS_AT as int, 1) {
        m.character_class
    } else if within(i, BODY_TYPE_AT as int, 1) {
        m.body_type
    } else if within(i, STARTING_GIFT_AT as int, 1) {
        m.starting_gift
    } else if within(i, POISON_RESISTANCE_AT as int, 1) {
        m.poison_resistance
    } else if within(i, BLEEDING_RESISTANCE_AT as int, 1) {
        m.bleeding_resistance
    } else if within(i, POISON_RESISTANCE2_AT as int, 1) {
        m.poison_resistance2
    } else if within(i, DAMNATION_RESISTANCE_AT as int, 1) {
        m.damnation_resistance
    } else if within(i, FACE_AT as int, 1) {
        m.face
    } else if within(i, HAIR_AT as int, 1) {
        m.hair
    } else if within(i, HAIR_COLOR_AT as int, 1) {
        m.hair_color
    } else if within(i, DEATHS_AT as int, 4) {
        le_byte(m.deaths as int, i - DEATHS_AT)
    } else {
        payload[i]
    }
}

/// The payload into which the record `m` has been written.
pub open spec fn overlaid(m: StatsModel, payload: Seq<u8>) -> Seq<u8> {
    Seq::new(payload.len(), |i: int| overlay_byte(m, payload, i))
}

/// A record that comes back from a payload as it was written: its name has no
/// NUL and fits the name field.
pub open spec fn round_trips(m: StatsModel) -> bool {
    fits_field(m.name, NAME_UNITS as int)
}

/// Writing a record leaves every byte outside the named fields as it was, and
/// the payload's length too.
pub proof fn lemma_overlay_keeps_gaps(m: StatsModel, payload: Seq<u8>)
    ensures
        overlaid(m, payload).len() == payload.len(),
        forall|i: int|
            0 <= i < payload.len() && !is_field_byte(i) ==> overlaid(m, payload)[i] == payload[i],
{
}

/// The name field of a payload into which `m` has been written holds the code
/// units of `m`'s name.
proof fn lemma_overlay_name_units(m: StatsModel, payload: Seq<u8>)
    requires
        payload.len() >= RECORD_END,
    ensures
        units_at(overlaid(m, payload), NAME_AT as int, NAME_UNITS as int) == field_units(
            m.name,
            NAME_UNITS as int,
        ),
{
    let s = overlaid(m, payload);
    let want = field_units(m.name, NAME_UNITS as int);
    let got = units_at(s, NAME_AT as int, NAME_UNITS as int);
    assert forall|j: int| 0 <= j < NAME_UNITS implies got[j] == want[j] by {
        let at = NAME_AT + 2 * j;
        assert(s[at] == field_byte(m.name, NAME_UNITS as int, 2 * j));
        assert(s[at + 1] == field_byte(m.name, NAME_UNITS as int, 2 * j + 1));
        assert((2 * j) / 2 == j && (2 * j) % 2 == 0);
        assert((2 * j + 1) / 2 == j && (2 * j + 1) % 2 == 1);
        lemma_u16_round_trip(s, at, want[j]);
    }
    assert(got =~= want);
}

/// Reading a payload into which a record has been written gives that record
/// back, field for field, provided its name fits the name field and holds no
/// NUL.
pub proof fn lemma_record_round_trip(m: StatsModel, payload: Seq<u8>)
    requires
        payload.len() >= RECORD_END,
        round_trips(m),
    ensures
        record_of(overlaid(m, payload)) == m,
{
    let s = overlaid(m, payload);
    lemma_u32_round_trip(s, HEALTH_CURRENT_AT as int, m.health_current);
    lemma_u32_round_trip(s, HEALTH_MAX1_AT as int, m.health_max1);
    lemma_u32_round_trip(s, HEALTH_MAX2_AT as int, m.health_max2);
    lemma_u32_round_trip(s, STAMINA2_AT as int, m.stamina2);
    lemma_u64_round_trip(s, STAMINA3_AT as int, m.stamina3);
    lemma_u64_round_trip(s, VITALITY_AT as int, m.vitality);
    lemma_u64_round_trip(s, ATTUNEMENT_AT as int, m.attunement);
    lemma_u64_round_trip(s, ENDURANCE_AT as int, m.endurance);
    lemma_u64_round_trip(s, STRENGTH_AT as int, m.strength);
    lemma_u64_round_trip(s, DEXTERITY_AT as int, m.dexterity);
    lemma_u64_round_trip(s, INTELLIGENCE_AT as int, m.intelligence);
    lemma_u64_round_trip(s, FAITH_AT as int, m.faith);
    lemma_u64_round_trip(s, HUMANITY_AT as int, m.humanity);
    lemma_u64_round_trip(s, RESISTANCE_AT as int, m.resistance);
    lemma_u32_round_trip(s, LEVEL_AT as int, m.level);
    lemma_u32_round_trip(s, SOULS_AT as int, m.souls);
    lemma_u64_round_trip(s, EARNED_SOULS_AT as int, m.earned_souls);
    lemma_u32_round_trip(s, SOUL_STATE_AT as int, soul_state_raw(m.soul_state));
    lemma_overlay_name_units(m, payload);
    lemma_field_round_trip(s, NAME_AT as int, NAME_UNITS as int, m.name);
    lemma_u32_round_trip(s, DEATHS_AT as int, m.deaths);
}

/// The fields that an edit sets. Every other field of the record stays.
#[derive(Clone, Debug)]
pub struct StatEdits {
    /// The new name.
    pub name: String,
    /// The new soul level.
    pub level: u32,
    /// The new number of souls held.
    pub souls: u32,
    /// The new strength.
    pub strength: u64,
    /// The new dexterity.
    pub dexterity: u64,
    /// The new intelligence.
    pub intelligence: u64,
    /// The new faith.
    pub faith: u64,
    /// The new vitality.
    pub vitality: u64,
    /// The new endurance.
    pub endurance: u64,
    /// The new humanity.
    pub humanity: u64,
    /// The new maximum health, which current health is set to as well.
    pub health_max: u32,
    /// The new starting class.
    pub character_class: u8,
    /// Whether the character is male.
    pub is_male: bool,
}

/// The record of a character that has not been edited yet.
pub open spec fn default_record() -> StatsModel {
    StatsModel {
        health_current: 0,
        health_max1: 400,
        health_max2: 400,
        stamina2: 0,
        stamina3: 0,
        vitality: 10,
        attunement: 10,
        endurance: 10,
        strength: 10,
        dexterity: 10,
        intelligence: 10,
        faith: 10,
        humanity: 0,
        resistance: 10,
        level: 1,
        souls: 0,
        earned_souls: 0,
        soul_state: SoulState::Human,
        name: Seq::empty(),
        is_male: true,
        character_class: 0,
        body_type: 0,
        starting_gift: 0,
        poison_resistance: 0,
        bleeding_resistance: 0,
        poison_resistance2: 0,
        damnation_resistance: 0,
        face: 0,
        hair: 0,
        hair_color: 0,
        deaths: 0,
    }
}

/// The record `m` after an edit: the edited fields are set, the three health
/// fields all to the new maximum, and the others are kept.
pub open spec fn edited(m: StatsModel, edits: StatEdits) -> StatsModel {
    StatsModel {
        health_current: edits.health_max,
        health_max1: edits.health_max,
        health_max2: edits.health_max,
        stamina2: m.stamina2,
        stamina3: m.stamina3,
        vitality: edits.vitality,
        attunement: m.attunement,
        endurance: edits.endurance,
        strength: edits.strength,
        dexterity: edits.dexterity,
        intelligence: edits.intelligence,
        faith: edits.faith,
        humanity: edits.humanity,
        resistance: m.resistance,
        level: edits.level,
        souls: edits.souls,
        earned_souls: m.earned_souls,
        soul_state: m.soul_state,
        name: edits.name@,
        is_male: edits.is_male,
        character_class: edits.character_class,
        body_type: m.body_type,
        starting_gift: m.starting_gift,
        poison_resistance: m.poison_resistance,
        bleeding_resistance: m.bleeding_resistance,
        poison_resistance2: m.poison_resistance2,
        damnation_resistance: m.damnation_resistance,
        face: m.face,
        hair: m.hair,
        hair_color: m.hair_color,
        deaths: m.deaths,
    }
}

/// Overwrites the byte at `at`.
fn put_byte(buf: &mut Vec<u8>, at: usize, v: u8)
    requires
        at < old(buf).len(),
    ensures
        final(buf)@ == old(buf)@.update(at as int, v),
{
    buf.set(at, v);
}

/// Overwrites the field of `units.len()` code units at byte `off` with `units`.
fn put_units(buf: &mut Vec<u8>, off: usize, units: &Vec<u16>)
    requires
        off + 2 * units.len() <= old(buf).len(),
    ensures
        final(buf)@.len() == old(buf)@.len(),
        forall|i: int|
            0 <= i < old(buf)@.len() ==> final(buf)@[i] == if within(
                i,
                off as int,
                2 * (units@.len() as int),
            ) {
                le_byte(units@[(i - off) / 2] as int, (i - off) % 2)
            } else {
                old(buf)@[i]
            },
{
    let mut j: usize = 0;
    while j < units.len()
        invariant
            j <= units.len(),
            off + 2 * units.len() <= buf.len(),
            buf@.len() == old(buf)@.len(),
            forall|i: int|
                0 <= i < buf@.len() ==> buf@[i] == if within(i, off as int, 2 * j) {
                    le_byte(units@[(i - off) / 2] as int, (i - off) % 2)
                } else {
                    old(buf)@[i]
                },
        decreases units.len() - j,
    {
        write_le(buf, off + 2 * j, 2, units[j] as u64);
        j = j + 1;
    }
}

impl CharacterStats {
    /// Reads the record out of a decrypted character payload. Fails where the
    /// payload ends before the last named field does.
    pub fn deserialize(payload: &[u8]) -> (r: Result<CharacterStats, FormatError>)
        ensures
            payload@.len() >= RECORD_END ==> r is Ok && r->Ok_0@ == record_of(payload@),
            payload@.len() < RECORD_END ==> r is Err && r->Err_0 == FormatError::Truncated,
    {
        if payload.len() < RECORD_END {
            return Err(FormatError::Truncated);
        }
        let name: String = match read_field(payload, NAME_AT, NAME_UNITS) {
            Some(text) => text,
            None => String::new(),
        };
        Ok(
            CharacterStats {
                health_current: read_u32_le(payload, HEALTH_CURRENT_AT),
                health_max1: read_u32_le(payload, HEALTH_MAX1_AT),
                health_max2: read_u32_le(payload, HEALTH_MAX2_AT),
                stamina2: read_u32_le(payload, STAMINA2_AT),
                stamina3: read_u64_le(payload, STAMINA3_AT),
                vitality: read_u64_le(payload, VITALITY_AT),
                attunement: read_u64_le(payload, ATTUNEMENT_AT),
                endurance: read_u64_le(payload, ENDURANCE_AT),
                strength: read_u64_le(payload, STRENGTH_AT),
                dexterity: read_u64_le(payload, DEXTERITY_AT),
                intelligence: read_u64_le(payload, INTELLIGENCE_AT),
                faith: read_u64_le(payload, FAITH_AT),
                humanity: read_u64_le(payload, HUMANITY_AT),
                resistance: read_u64_le(payload, RESISTANCE_AT),
                level: read_u32_le(payload, LEVEL_AT),
                souls: read_u32_le(payload, SOULS_AT),
                earned_souls: read_u64_le(payload, EARNED_SOULS_AT),
                soul_state: SoulState::from_raw(read_u32_le(payload, SOUL_STATE_AT)),
                name,
                is_male: payload[IS_MALE_AT] == 1,
                character_class: payload[CHARACTER_CLASS_AT],
                body_type: payload[BODY_TYPE_AT],
                starting_gift: payload[STARTING_GIFT_AT],
                poison_resistance: payload[POISON_RESISTANCE_AT],
                bleeding_resistance: payload[BLEEDING_RESISTANCE_AT],
                poison_resistance2: payload[POISON_RESISTANCE2_AT],
                damnation_resistance: payload[DAMNATION_RESISTANCE_AT],
                face: payload[FACE_AT],
                hair: payload[HAIR_AT],
                hair_color: payload[HAIR_COLOR_AT],
                deaths: read_u32_le(payload, DEATHS_AT),
            },
        )
    }

    /// Writes the record into a decrypted character payload, in place. Only
    /// the bytes of the named fields change. A name longer than the name field
    /// is cut to its length; a shorter one is followed by zeros. Fails, and
    /// leaves the payload as it is, where the payload ends before the last
    /// named field does.
    pub fn serialize(&self, payload: &mut Vec<u8>) -> (r: Result<(), FormatError>)
        ensures
            old(payload)@.len() >= RECORD_END ==> r is Ok && final(payload)@ == overlaid(
                self@,
                old(payload)@,
            ),
            old(payload)@.len() < RECORD_END ==> r is Err && r->Err_0 == FormatError::Truncated
                && final(payload)@ == old(payload)@,
    {
        if payload.len() < RECORD_END {
            return Err(FormatError::Truncated);
        }
        write_le(payload, HEALTH_CURRENT_AT, 4, self.health_current as u64);
        write_le(payload, HEALTH_MAX1_AT, 4, self.health_max1 as u64);
        write_le(payload, HEALTH_MAX2_AT, 4, self.health_max2 as u64);
        write_le(payload, STAMINA2_AT, 4, self.stamina2 as u64);
        write_le(payload, STAMINA3_AT, 8, self.stamina3);
        write_le(payload, VITALITY_AT, 8, self.vitality);
        write_le(payload, ATTUNEMENT_AT, 8, self.attunement);
        write_le(payload, ENDURANCE_AT, 8, self.endurance);
        write_le(payload, STRENGTH_AT, 8, self.strength);
        write_le(payload, DEXTERITY_AT, 8, self.dexterity);
        write_le(payload, INTELLIGENCE_AT, 8, self.intelligence);
        write_le(payload, FAITH_AT, 8, self.faith);
        write_le(payload, HUMANITY_AT, 8, self.humanity);
        write_le(payload, RESISTANCE_AT, 8, self.resistance);
        write_le(payload, LEVEL_AT, 4, self.level as u64);
        write_le(payload, SOULS_AT, 4, self.souls as u64);
        write_le(payload, EARNED_SOULS_AT, 8, self.earned_souls);
        write_le(payload, SOUL_STATE_AT, 4, self.soul_state.to_raw() as u64);
        let units: Vec<u16> = field_units_of(self.name.as_str(), NAME_UNITS);
        put_units(payload, NAME_AT, &units);
        put_byte(payload, IS_MALE_AT, if self.is_male {
            1
        } else {
            0
        });
        put_byte(payload, CHARACTER_CLASS_AT, self.character_class);
        put_byte(payload, BODY_TYPE_AT, self.body_type);
        put_byte(payload, STARTING_GIFT_AT, self.starting_gift);
        put_byte(payload, POISON_RESISTANCE_AT, self.poison_resistance);
        put_byte(payload, BLEEDING_RESISTANCE_AT, self.bleeding_resistance);
        put_byte(payload, POISON_RESISTANCE2_AT, self.poison_resistance2);
        put_byte(payload, DAMNATION_RESISTANCE_AT, self.damnation_resistance);
        put_byte(payload, FACE_AT, self.face);
        put_byte(payload, HAIR_AT, self.hair);
        put_byte(payload, HAIR_COLOR_AT, self.hair_color);
        write_le(payload, DEATHS_AT, 4, self.deaths as u64);
        assert(payload@ =~= overlaid(self@, old(payload)@));
        Ok(())
    }

    /// The record that an edit starts from where no record has been loaded.
    pub fn defaults() -> (stats: CharacterStats)
        ensures
            stats@ == default_record(),
    {
        CharacterStats {
            health_current: 0,
            health_max1: 400,
            health_max2: 400,
            stamina2: 0,
            stamina3: 0,
            vitality: 10,
            attunement: 10,
            endurance: 10,
            strength: 10,
            dexterity: 10,
            intelligence: 10,
            faith: 10,
            humanity: 0,
            resistance: 10,
            level: 1,
            souls: 0,
            earned_souls: 0,
            soul_state: SoulState::Human,
            name: String::new(),
            is_male: true,
            character_class: 0,
            body_type: 0,
            starting_gift: 0,
            poison_resistance: 0,
            bleeding_resistance: 0,
            poison_resistance2: 0,
            damnation_resistance: 0,
            face: 0,
            hair: 0,
            hair_color: 0,
            deaths: 0,
        }
    }

    /// Applies an edit to the record.
    pub fn with_edits(self, edits: StatEdits) -> (stats: CharacterStats)
        ensures
            stats@ == edited(self@, edits),
    {
        CharacterStats {
            health_current: edits.health_max,
            health_max1: edits.health_max,
            health_max2: edits.health_max,
            stamina2: self.stamina2,
            stamina3: self.stamina3,
            vitality: edits.vitality,
            attunement: self.attunement,
            endurance: edits.endurance,
            strength: edits.strength,
            dexterity: edits.dexterity,
            intelligence: edits.intelligence,
            faith: edits.faith,
            humanity: edits.humanity,
            resistance: self.resistance,
            level: edits.level,
            souls: edits.souls,
            earned_souls: self.earned_souls,
            soul_state: self.soul_state,
            name: edits.name,
            is_male: edits.is_male,
            character_class: edits.character_class,
            body_type: self.body_type,
            starting_gift: self.starting_gift,
            poison_resistance: self.poison_resistance,
            bleeding_resistance: self.bleeding_resistance,
            poison_resistance2: self.poison_resistance2,
            damnation_resistance: self.damnation_resistance,
            face: self.face,
            hair: self.hair,
            hair_color: self.hair_color,
            deaths: self.deaths,
        }
    }
}

} // verus!
