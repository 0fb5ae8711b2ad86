//! The graph's colour settings: the palette picker and the custom colour
//! inputs of the graph inspector.
use vstd::prelude::*;
use vstd::string::StringSliceAdditionalSpecFns;
use crate::text::same_text;

verus! {

/// The colour palettes the graph can be drawn with.
#[derive(Debug, Clone, Copy, PartialEq, Eq, Structural)]
pub enum PalettePreset {
    NoderaTech,
    Cyberpunk,
    Emerald,
    SolarAmber,
    Dracula,
    Monochrome,
    Custom,
}

/// The value the palette picker holds for a palette.
pub open spec fn palette_value_spec(p: PalettePreset) -> Seq<char> {
    match p {
        PalettePreset::NoderaTech => "nodera_tech"@,
        PalettePreset::Cyberpunk => "cyberpunk"@,
        PalettePreset::Emerald => "emerald"@,
        PalettePreset::SolarAmber => "solar_amber"@,
        PalettePreset::Dracula => "dracula"@,
        PalettePreset::Monochrome => "monochrome"@,
        PalettePreset::Custom => "custom"@,
    }
}

/// The palette a picker value selects; an unknown value selects the
/// default palette.
pub open spec fn palette_from_value_spec(value: Seq<char>) -> PalettePreset {
    if value == "cyberpunk"@ {
        PalettePreset::Cyberpunk
    } else if value == "emerald"@ {
        PalettePreset::Emerald
    } else if value == "solar_amber"@ {
        PalettePreset::SolarAmber
    } else if value == "dracula"@ {
        PalettePreset::Dracula
    } else if value == "monochrome"@ {
        PalettePreset::Monochrome
    } else if value == "custom"@ {
        PalettePreset::Custom
    } else {
        PalettePreset::NoderaTech
    }
}

/// The picker value of a palette.
pub fn palette_value(p: PalettePreset) -> (value: &'static str)
    ensures
        value@ == palette_value_spec(p),
{
    match p {
        PalettePreset::NoderaTech => "nodera_tech",
        PalettePreset::Cyberpunk => "cyberpunk",
        PalettePreset::Emerald => "emerald",
        PalettePreset::SolarAmber => "solar_amber",
        PalettePreset::Dracula => "dracula",
        PalettePreset::Monochrome => "monochrome",
        PalettePreset::Custom => "custom",
    }
}

/// The palette a picker value selects.
pub fn palette_from_value(value: &str) -> (p: PalettePreset)
    ensures
        p == palette_from_value_spec(value@),
{
    if same_text(value, "cyberpunk") {
        PalettePreset::Cyberpunk
    } else if same_text(value, "emerald") {
        PalettePreset::Emerald
    } else if same_text(value, "solar_amber") {
        PalettePreset::SolarAmber
    } else if same_text(value, "dracula") {
        PalettePreset::Dracula
    } else if same_text(value, "monochrome") {
        PalettePreset::Monochrome
    } else if same_text(value, "custom") {
        PalettePreset::Custom
    } else {
        PalettePreset::NoderaTech
    }
}

/// Selecting the value shown for a palette selects that palette again.
pub proof fn lemma_palette_value_round_trip(p: PalettePreset)
    ensures
        palette_from_value_spec(palette_value_spec(p)) == p,
{
    reveal_strlit("nodera_tech");
    reveal_strlit("cyberpunk");
    reveal_strlit("emerald");
    reveal_strlit("solar_amber");
    reveal_strlit("dracula");
    reveal_strlit("monochrome");
    reveal_strlit("custom");
    let v = palette_value_spec(p);
    // The picker values differ in length or in their first character.
    assert(v.len() == 9 ==> v[0] == 'c');
    assert(v.len() == 7 ==> (v[0] == 'e' || v[0] == 'd'));
    assert(v.len() == 11 ==> (v[0] == 'n' || v[0] == 's'));
}

/// The parts of the graph drawn in a colour of their own.
#[derive(Debug, Clone, Copy, PartialEq, Eq, Structural)]
pub enum ColorRole {
    CenterNode,
    SubNode,
    SelectedNode,
    Edge,
    Text,
}

/// The chosen palette and the custom colours that override it.
#[derive(Debug, Clone)]
pub struct GraphColorChoice {
    pub palette: PalettePreset,
    pub center_node_color: Option<String>,
    pub sub_node_color: Option<String>,
    pub selected_node_color: Option<String>,
    pub edge_color: Option<String>,
    pub text_color: Option<String>,
}

/// The text of an optional colour.
pub open spec fn color_view(c: Option<String>) -> Option<Seq<char>> {
    match c {
        Some(s) => Some(s@),
        None => None,
    }
}

/// The custom colour set for a role, if any.
pub open spec fn override_of(colors: GraphColorChoice, role: ColorRole) -> Option<Seq<char>> {
    match role {
        ColorRole::CenterNode => color_view(colors.center_node_color),
        ColorRole::SubNode => color_view(colors.sub_node_color),
        ColorRole::SelectedNode => color_view(colors.selected_node_color),
        ColorRole::Edge => color_view(colors.edge_color),
        ColorRole::Text => color_view(colors.text_color),
    }
}

/// Picking a palette: the palette the value selects, with every custom
/// colour cleared.
pub fn choose_palette(colors: &mut GraphColorChoice, value: &str)
    ensures
        final(colors).palette == palette_from_value_spec(value@),
        forall|r: ColorRole| override_of(*final(colors), r) is None,
{
    colors.palette = palette_from_value(value);
    colors.center_node_color = None;
    colors.sub_node_color = None;
    colors.selected_node_color = None;
    colors.edge_color = None;
    colors.text_color = None;
}

/// Setting a custom colour for one role switches to the custom palette
/// and leaves the other roles' colours as they were.
pub fn set_custom_color(colors: &mut GraphColorChoice, role: ColorRole, color: String)
    ensures
        final(colors).palette == PalettePreset::Custom,
        override_of(*final(colors), role) == Some(color@),
        forall|r: ColorRole| r != role ==> override_of(*final(colors), r) == override_of(*old(colors), r),
        color_view(final(colors).center_node_color) == if role is CenterNode {
            Some(color@)
        } else {
            color_view(old(colors).center_node_color)
        },
        color_view(final(colors).sub_node_color) == if role is SubNode {
            Some(color@)
        } else {
            color_view(old(colors).sub_node_color)
        },
        color_view(final(colors).selected_node_color) == if role is SelectedNode {
            Some(color@)
        } else {
            color_view(old(colors).selected_node_color)
        },
        color_view(final(colors).edge_color) == if role is Edge {
            Some(color@)
        } else {
            color_view(old(colors).edge_color)
        },
        color_view(final(colors).text_color) == if role is Text {
            Some(color@)
        } else {
            color_view(old(colors).text_color)
        },
{
    match role {
        ColorRole::CenterNode => colors.center_node_color = Some(color),
        ColorRole::SubNode => colors.sub_node_color = Some(color),
        ColorRole::SelectedNode => colors.selected_node_color = Some(color),
        ColorRole::Edge => colors.edge_color = Some(color),
        ColorRole::Text => colors.text_color = Some(color),
    }
    colors.palette = PalettePreset::Custom;
}

/// A custom colour input is taken once it holds a whole hex colour: seven
/// bytes starting with '#', or four bytes.
pub open spec fn hex_input_complete(bytes: Seq<u8>) -> bool {
    (bytes.len() == 7 && bytes[0] == 35u8) || bytes.len() == 4
}

/// Whether the text typed in a custom colour input is taken.
pub fn is_complete_hex_input(text: &str) -> (complete: bool)
    ensures
        complete == hex_input_complete(text.spec_bytes()),
{
    let bytes = text.as_bytes();
    let n = bytes.len();
    (n == 7 && bytes[0] == 35u8) || n == 4
}

/// Typing in a role's custom colour input: once the text is a whole hex
/// colour it becomes the role's colour (and the palette turns custom);
/// before that nothing changes.
pub fn apply_color_input(colors: &mut GraphColorChoice, role: ColorRole, text: &str) -> (applied: bool)
    ensures
        applied == hex_input_complete(text.spec_bytes()),
        applied ==> final(colors).palette == PalettePreset::Custom && override_of(*final(colors), role)
            == Some(text@) && forall|r: ColorRole|
            r != role ==> override_of(*final(colors), r) == override_of(*old(colors), r),
        !applied ==> *final(colors) == *old(colors),
{
    if is_complete_hex_input(text) {
        set_custom_color(colors, role, String::from_str(text));
        true
    } else {
        false
    }
}

/// Each role's custom colour is the field of that role: the centre node's
/// is `center_node_color`, the selected node's `selected_node_color`, and
/// so on; no two roles share a field.
pub proof fn lemma_each_role_has_its_own_field(colors: GraphColorChoice)
    ensures
        override_of(colors, ColorRole::CenterNode) == color_view(colors.center_node_color),
        override_of(colors, ColorRole::SubNode) == color_view(colors.sub_node_color),
        override_of(colors, ColorRole::SelectedNode) == color_view(colors.selected_node_color),
        override_of(colors, ColorRole::Edge) == color_view(colors.edge_color),
        override_of(colors, ColorRole::Text) == color_view(colors.text_color),
{
}

/// A custom colour is taken at four bytes ("#abc"), or at seven bytes
/// beginning with '#' ("#aabbcc"), and at no other length.
pub proof fn lemma_hex_input_lengths(bytes: Seq<u8>)
    ensures
        bytes.len() == 4 ==> hex_input_complete(bytes),
        bytes.len() == 7 ==> (hex_input_complete(bytes) <==> bytes[0] == '#' as u8),
        bytes.len() != 4 && bytes.len() != 7 ==> !hex_input_complete(bytes),
{
}

} // verus!
