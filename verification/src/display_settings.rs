//! Position and rotation of one monitor, and the part of a display mode
//! that changes when they are applied.

use crate::decimal::{
    decimal,
    digit_value,
    int_to_string,
    lemma_decimal_chars,
    lemma_decimal_injective,
    parse_decimal,
    parse_int,
};
use crate::text::{join, lemma_split_join, split, split_at, string_eq, views};
use vstd::prelude::*;
use vstd::string::*;

verus! {

/// Where a monitor sits and how it is turned.
#[derive(Debug, Clone, Copy, PartialEq, Eq, Structural)]
pub struct DisplaySettings {
    pub position: Pos,
    pub orientation: DisplayOrientation,
}

/// Rotation of a monitor, in the order the display subsystem numbers them.
#[derive(Debug, Clone, Copy, PartialEq, Eq, Structural)]
pub enum DisplayOrientation {
    Landscape,
    Portrait,
    LandscapeReversed,
    PortraitReversed,
}

/// Top-left corner of a monitor on the virtual desktop.
#[derive(Debug, Clone, Copy, PartialEq, Eq, Structural)]
pub struct Pos {
    pub x: i32,
    pub y: i32,
}

/// What a display mode holds of a monitor's geometry: the pixel size as the
/// display subsystem stores it, the settings, and the mask of fields that a
/// change request marks as set.
#[derive(Debug, Clone, Copy, PartialEq, Eq, Structural)]
pub struct DisplayMode {
    pub width: u32,
    pub height: u32,
    pub position: Pos,
    pub orientation: DisplayOrientation,
    pub fields: u32,
}

/// Field mask bit: the position is set.
pub const DM_POSITION: u32 = 0x20;

/// Field mask bit: the orientation is set.
pub const DM_DISPLAYORIENTATION: u32 = 0x80;

/// Field mask bit: the pixel width is set.
pub const DM_PELSWIDTH: u32 = 0x8_0000;

/// Field mask bit: the pixel height is set.
pub const DM_PELSHEIGHT: u32 = 0x10_0000;

impl DisplayOrientation {
    /// The number the display subsystem gives this rotation.
    pub open spec fn ordinal(self) -> int {
        match self {
            DisplayOrientation::Landscape => 0,
            DisplayOrientation::Portrait => 1,
            DisplayOrientation::LandscapeReversed => 2,
            DisplayOrientation::PortraitReversed => 3,
        }
    }

    /// Whether both rotations lie on the same axis, so that width and
    /// height keep their roles.
    pub open spec fn same_direction(self, other: Self) -> bool {
        self.ordinal() % 2 == other.ordinal() % 2
    }

    /// The name shown to the user.
    pub open spec fn name(self) -> Seq<char> {
        match self {
            DisplayOrientation::Landscape => "Landscape"@,
            DisplayOrientation::Portrait => "Portrait"@,
            DisplayOrientation::LandscapeReversed => "LandscapeReversed"@,
            DisplayOrientation::PortraitReversed => "PortraitReversed"@,
        }
    }

    /// The number of this rotation.
    pub fn code(self) -> (value: u32)
        ensures
            value == self.ordinal(),
    {
        match self {
            DisplayOrientation::Landscape => 0,
            DisplayOrientation::Portrait => 1,
            DisplayOrientation::LandscapeReversed => 2,
            DisplayOrientation::PortraitReversed => 3,
        }
    }

    /// The rotation with the given number, if there is one.
    pub fn try_from(value: u32) -> (orientation: Option<DisplayOrientation>)
        ensures
            value <= 3 ==> orientation is Some && orientation->0.ordinal() == value,
            value > 3 ==> orientation is None,
    {
        if value == 0 {
            Some(DisplayOrientation::Landscape)
        } else if value == 1 {
            Some(DisplayOrientation::Portrait)
        } else if value == 2 {
            Some(DisplayOrientation::LandscapeReversed)
        } else if value == 3 {
            Some(DisplayOrientation::PortraitReversed)
        } else {
            None
        }
    }

    /// The rotation of the given name, if it is the name of one.
    pub fn from_name(name: &str) -> (orientation: Option<DisplayOrientation>)
        ensures
            match orientation {
                Some(found) => found.name() == name@,
                None => forall|any: DisplayOrientation| any.name() != name@,
            },
    {
        if string_eq(name, "Landscape") {
            Some(DisplayOrientation::Landscape)
        } else if string_eq(name, "Portrait") {
            Some(DisplayOrientation::Portrait)
        } else if string_eq(name, "LandscapeReversed") {
            Some(DisplayOrientation::LandscapeReversed)
        } else if string_eq(name, "PortraitReversed") {
            Some(DisplayOrientation::PortraitReversed)
        } else {
            None
        }
    }

    pub fn is_same_direction(&self, other: &Self) -> (same: bool)
        ensures
            same == self.same_direction(*other),
    {
        self.code() % 2 == other.code() % 2
    }

    pub fn to_string(&self) -> (text: String)
        ensures
            text@ == self.name(),
    {
        match self {
            DisplayOrientation::Landscape => String::from_str("Landscape"),
            DisplayOrientation::Portrait => String::from_str("Portrait"),
            DisplayOrientation::LandscapeReversed => String::from_str("LandscapeReversed"),
            DisplayOrientation::PortraitReversed => String::from_str("PortraitReversed"),
        }
    }
}

/// The settings whose text is `s`, if it is the text of settings.
pub open spec fn parse_settings(s: Seq<char>) -> Option<DisplaySettings> {
    if exists|settings: DisplaySettings| settings.text() == s {
        Some(choose|settings: DisplaySettings| settings.text() == s)
    } else {
        None
    }
}

/// Two rotations of the same name are the same, and no name holds a comma.
pub proof fn lemma_orientation_names(a: DisplayOrientation, b: DisplayOrientation)
    ensures
        a.name() == b.name() ==> a == b,
        !a.name().contains(','),
{
    reveal_strlit("Landscape");
    reveal_strlit("Portrait");
    reveal_strlit("LandscapeReversed");
    reveal_strlit("PortraitReversed");
    assert(a.name().len() == b.name().len() ==> a == b);
    let name = a.name();
    if name.contains(',') {
        let k = choose|k: int| 0 <= k < name.len() && name[k] == ',';
        assert(name[k] == ',');
        assert(false);
    }
}

/// The text of settings falls apart, at its comma and its slash, into the
/// decimal forms of the position and the name of the rotation.
pub proof fn lemma_settings_text(settings: DisplaySettings)
    ensures
        split(settings.text(), ',') == seq![
            decimal(settings.position.x as int) + seq!['/'] + decimal(
                settings.position.y as int,
            ),
            settings.orientation.name(),
        ],
        split(
            decimal(settings.position.x as int) + seq!['/'] + decimal(settings.position.y as int),
            '/',
        ) == seq![decimal(settings.position.x as int), decimal(settings.position.y as int)],
{
    reveal_strlit("/");
    reveal_strlit(",");
    let x = decimal(settings.position.x as int);
    let y = decimal(settings.position.y as int);
    let name = settings.orientation.name();
    lemma_decimal_chars(settings.position.x);
    lemma_decimal_chars(settings.position.y);
    lemma_orientation_names(settings.orientation, settings.orientation);
    assert forall|c: char| c == ',' || c == '/' implies !x.contains(c) && !y.contains(c) by {
        if x.contains(c) {
            let k = choose|k: int| 0 <= k < x.len() && x[k] == c;
            assert(x[k] == '-' || digit_value(x[k]) is Some);
        }
        if y.contains(c) {
            let k = choose|k: int| 0 <= k < y.len() && y[k] == c;
            assert(y[k] == '-' || digit_value(y[k]) is Some);
        }
    }
    let coords = seq![x, y];
    assert(join(coords, seq!['/']) =~= x + seq!['/'] + y) by {
        assert(coords.drop_last() =~= seq![x]);
        assert(join(seq![x], seq!['/']) == x);
    }
    lemma_split_join(coords, '/');
    let place = x + seq!['/'] + y;
    assert(!place.contains(',')) by {
        if place.contains(',') {
            let k = choose|k: int| 0 <= k < place.len() && place[k] == ',';
            if k < x.len() {
                assert(x[k] == ',');
                assert(x.contains(','));
            } else if k > x.len() {
                assert(y[k - x.len() - 1] == ',');
                assert(y.contains(','));
            }
        }
    }
    let pieces = seq![place, name];
    assert(join(pieces, seq![',']) =~= settings.text()) by {
        assert(pieces.drop_last() =~= seq![place]);
        assert(join(seq![place], seq![',']) == place);
        assert("/"@ =~= seq!['/']);
        assert(","@ =~= seq![',']);
    }
    lemma_split_join(pieces, ',');
}

/// Settings with the same text are the same settings.
pub proof fn lemma_settings_text_injective(a: DisplaySettings, b: DisplaySettings)
    requires
        a.text() == b.text(),
    ensures
        a == b,
{
    lemma_settings_text(a);
    lemma_settings_text(b);
    let pa = seq![
        decimal(a.position.x as int) + seq!['/'] + decimal(a.position.y as int),
        a.orientation.name(),
    ];
    let pb = seq![
        decimal(b.position.x as int) + seq!['/'] + decimal(b.position.y as int),
        b.orientation.name(),
    ];
    assert(pa[0] == pb[0] && pa[1] == pb[1]);
    let ca = seq![decimal(a.position.x as int), decimal(a.position.y as int)];
    let cb = seq![decimal(b.position.x as int), decimal(b.position.y as int)];
    assert(ca[0] == cb[0] && ca[1] == cb[1]);
    lemma_decimal_injective(a.position.x, b.position.x);
    lemma_decimal_injective(a.position.y, b.position.y);
    lemma_orientation_names(a.orientation, b.orientation);
}

/// Reading the text of settings gives the settings back.
pub proof fn lemma_parse_settings(settings: DisplaySettings)
    ensures
        parse_settings(settings.text()) == Some(settings),
{
    let found = choose|any: DisplaySettings| any.text() == settings.text();
    lemma_settings_text_injective(found, settings);
}

impl DisplaySettings {
    /// `x/y,Orientation`.
    pub open spec fn text(self) -> Seq<char> {
        decimal(self.position.x as int) + "/"@ + decimal(self.position.y as int) + ","@
            + self.orientation.name()
    }

    /// Reads settings from their text `x/y,Orientation`.
    pub fn try_from(text: &str) -> (settings: Option<DisplaySettings>)
        ensures
            settings == parse_settings(text@),
    {
        proof {
            assert forall|any: DisplaySettings| any.text() == text@ implies split(text@, ',')
                == seq![
                decimal(any.position.x as int) + seq!['/'] + decimal(any.position.y as int),
                any.orientation.name(),
            ] && split(
                decimal(any.position.x as int) + seq!['/'] + decimal(any.position.y as int),
                '/',
            ) == seq![decimal(any.position.x as int), decimal(any.position.y as int)] by {
                lemma_settings_text(any);
            }
        }
        let pieces = split_at(text, ',');
        if pieces.len() != 2 {
            proof {
                assert(views(pieces@).len() == pieces@.len());
                assert forall|any: DisplaySettings| any.text() == text@ implies false by {
                    lemma_settings_text(any);
                }
            }
            return None;
        }
        assert(views(pieces@)[0] == pieces@[0]@ && views(pieces@)[1] == pieces@[1]@);
        let coords = split_at(pieces[0].as_str(), '/');
        if coords.len() != 2 {
            proof {
                assert(views(coords@).len() == coords@.len());
                assert forall|any: DisplaySettings| any.text() == text@ implies false by {
                    lemma_settings_text(any);
                }
            }
            return None;
        }
        assert(views(coords@)[0] == coords@[0]@ && views(coords@)[1] == coords@[1]@);
        let x = match parse_int(coords[0].as_str()) {
            Some(x) => x,
            None => {
                return None;
            },
        };
        let y = match parse_int(coords[1].as_str()) {
            Some(y) => y,
            None => {
                return None;
            },
        };
        let orientation = match DisplayOrientation::from_name(pieces[1].as_str()) {
            Some(orientation) => orientation,
            None => {
                return None;
            },
        };
        let candidate = DisplaySettings { position: Pos { x, y }, orientation };
        if string_eq(candidate.to_string().as_str(), text) {
            proof {
                let chosen = choose|any: DisplaySettings| any.text() == text@;
                lemma_settings_text_injective(chosen, candidate);
            }
            Some(candidate)
        } else {
            proof {
                assert forall|any: DisplaySettings| any.text() == text@ implies false by {
                    lemma_settings_text(any);
                    lemma_orientation_names(any.orientation, orientation);
                    assert(parse_decimal(coords@[0]@) == Some(x));
                    assert(parse_decimal(coords@[1]@) == Some(y));
                    let cx = choose|i: i32| decimal(i as int) == coords@[0]@;
                    let cy = choose|i: i32| decimal(i as int) == coords@[1]@;
                    lemma_decimal_injective(any.position.x, cx);
                    lemma_decimal_injective(any.position.y, cy);
                    assert(any == candidate);
                }
            }
            None
        }
    }

    pub fn to_string(&self) -> (text: String)
        ensures
            text@ == self.text(),
    {
        let mut out = int_to_string(self.position.x);
        out.append("/");
        out.append(int_to_string(self.position.y).as_str());
        out.append(",");
        out.append(self.orientation.to_string().as_str());
        out
    }

    /// The settings that a display mode holds.
    pub fn from(mode: &DisplayMode) -> (settings: DisplaySettings)
        ensures
            settings.position == mode.position,
            settings.orientation == mode.orientation,
    {
        DisplaySettings { position: mode.position, orientation: mode.orientation }
    }

    /// A display mode that holds these settings and nothing else.
    pub fn into(self) -> (mode: DisplayMode)
        ensures
            mode == (DisplayMode {
                width: 0,
                height: 0,
                position: self.position,
                orientation: self.orientation,
                fields: 0,
            }),
    {
        DisplayMode {
            width: 0,
            height: 0,
            position: self.position,
            orientation: self.orientation,
            fields: 0,
        }
    }
}

impl DisplayMode {
    /// This mode after `target` is written into it: the pixel size is
    /// swapped exactly when the rotation changes axis, position and rotation
    /// are those of `target`, and the four fields are marked as set.
    pub open spec fn with_settings(self, target: DisplaySettings) -> DisplayMode {
        let swap = !self.orientation.same_direction(target.orientation);
        DisplayMode {
            width: if swap { self.height } else { self.width },
            height: if swap { self.width } else { self.height },
            position: target.position,
            orientation: target.orientation,
            fields: self.fields | DM_DISPLAYORIENTATION | DM_PELSWIDTH | DM_PELSHEIGHT
                | DM_POSITION,
        }
    }
}

/// Writing the same settings a second time changes nothing: the first
/// write leaves the mode on the axis of the target, so the second swaps
/// nothing and sets what is set already.
pub proof fn lemma_with_settings_twice(mode: DisplayMode, target: DisplaySettings)
    ensures
        mode.with_settings(target).with_settings(target) == mode.with_settings(target),
{
    let fields = mode.fields;
    assert((fields | DM_DISPLAYORIENTATION | DM_PELSWIDTH | DM_PELSHEIGHT | DM_POSITION)
        | DM_DISPLAYORIENTATION | DM_PELSWIDTH | DM_PELSHEIGHT | DM_POSITION == fields
        | DM_DISPLAYORIENTATION | DM_PELSWIDTH | DM_PELSHEIGHT | DM_POSITION) by (bit_vector);
}

/// Writing settings swaps width and height exactly when the rotation
/// changes axis, and never changes them otherwise.
pub proof fn lemma_with_settings_swaps(mode: DisplayMode, target: DisplaySettings)
    ensures
        mode.orientation.same_direction(target.orientation) ==> mode.with_settings(target).width
            == mode.width && mode.with_settings(target).height == mode.height,
        !mode.orientation.same_direction(target.orientation) ==> mode.with_settings(
            target,
        ).width == mode.height && mode.with_settings(target).height == mode.width,
        mode.with_settings(target).position == target.position,
        mode.with_settings(target).orientation == target.orientation,
{
}

} // verus!
