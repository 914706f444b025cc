use crate::block::Block;
use vstd::prelude::*;

verus! {

#[derive(Debug, Clone, Copy, PartialEq, Eq, Structural)]
pub enum MouseButton {
    Left,
    Right,
    Middle,
}

impl MouseButton {
    /// Button for the number that a browser gives it: 0 is the left
    /// button, 1 the middle one, 2 the right one; any other number counts as
    /// the left button.
    pub fn from_web_button(button: i16) -> (b: Self)
        ensures
            b == if button == 1 {
                MouseButton::Middle
            } else if button == 2 {
                MouseButton::Right
            } else {
                MouseButton::Left
            },
    {
        match button {
            0 => MouseButton::Left,
            1 => MouseButton::Middle,
            2 => MouseButton::Right,
            _ => MouseButton::Left,
        }
    }
}

/// Key mapping configuration
#[derive(Clone)]
pub struct KeyBindings {
    pub forward: String,
    pub backward: String,
    pub left: String,
    pub right: String,
    pub jump: String,
    pub sprint: String,
    pub toggle_camera: String,
    pub toggle_player: String,
    pub toggle_wireframe: String,
    pub toggle_chunk_borders: String,
    pub escape: String,
}

impl KeyBindings {
    /// The bindings that `default` returns.
    pub open spec fn is_standard(self) -> bool {
        &&& self.forward@ == "w"@
        &&& self.backward@ == "s"@
        &&& self.left@ == "a"@
        &&& self.right@ == "d"@
        &&& self.jump@ == " "@
        &&& self.sprint@ == "Shift"@
        &&& self.toggle_camera@ == "c"@
        &&& self.toggle_player@ == "p"@
        &&& self.toggle_wireframe@ == "g"@
        &&& self.toggle_chunk_borders@ == "b"@
        &&& self.escape@ == "Escape"@
    }
}

impl Default for KeyBindings {
    fn default() -> (k: Self)
        ensures
            k.is_standard(),
    {
        Self {
            forward: "w".to_owned(),
            backward: "s".to_owned(),
            left: "a".to_owned(),
            right: "d".to_owned(),
            jump: " ".to_owned(),
            sprint: "Shift".to_owned(),
            toggle_camera: "c".to_owned(),
            toggle_player: "p".to_owned(),
            toggle_wireframe: "g".to_owned(),
            toggle_chunk_borders: "b".to_owned(),
            escape: "Escape".to_owned(),
        }
    }
}

/// `c` with the letters `A` to `Z` turned into `a` to `z`.
pub open spec fn ascii_lower(c: char) -> char {
    if 'A' <= c <= 'Z' {
        ((c as u32) + 32) as char
    } else {
        c
    }
}

/// Whether two texts are equal once the letters `A` to `Z` count as `a`
/// to `z`.
pub open spec fn same_ignoring_case(a: Seq<char>, b: Seq<char>) -> bool {
    a.map_values(|c: char| ascii_lower(c)) == b.map_values(|c: char| ascii_lower(c))
}

/// `str::eq_ignore_ascii_case` of the standard library: the two texts
/// match when they are equal after the ASCII letters `A` to `Z` of both
/// have been mapped to `a` to `z`; every other character is compared as
/// it is.
#[verifier::external_body]
fn eq_ignore_case(a: &str, b: &str) -> (same: bool)
    ensures
        same == same_ignoring_case(a@, b@),
{
    a.eq_ignore_ascii_case(b)
}

/// Equality of `str` in the standard library: two texts are equal when
/// they hold the same characters in the same order.
#[verifier::external_body]
fn same_text(a: &str, b: &str) -> (same: bool)
    ensures
        same == (a@ == b@),
{
    a == b
}

/// The materials that the player can pick, in the order in which the
/// wheel walks through them.
pub open spec fn hotbar() -> Seq<Block> {
    seq![
        Block::Grass,
        Block::Dirt,
        Block::Stone,
        Block::Sand,
        Block::Gravel,
        Block::Cobblestone,
        Block::Bedrock,
        Block::OakLeaves,
        Block::Wood,
        Block::Water,
        Block::Cloud,
    ]
}

/// Place of `b` in the hotbar; a material that is not in it counts as the
/// first.
pub open spec fn hotbar_index(b: Block) -> int {
    if hotbar().contains(b) {
        hotbar().index_of(b)
    } else {
        0
    }
}

/// The material that the wheel picks after `selected`: the next of the
/// hotbar when `forward`, else the one before, going round at either end.
pub open spec fn cycled(selected: Block, forward: bool) -> Block {
    let i = hotbar_index(selected);
    if forward {
        hotbar()[if i < 10 {
            i + 1
        } else {
            0
        }]
    } else {
        hotbar()[if i > 0 {
            i - 1
        } else {
            10
        }]
    }
}

pub fn cycle_selected_block(selected: Block, forward: bool) -> (next: Block)
    ensures
        next == cycled(selected, forward),
{
    let blocks = [
        Block::Grass,
        Block::Dirt,
        Block::Stone,
        Block::Sand,
        Block::Gravel,
        Block::Cobblestone,
        Block::Bedrock,
        Block::OakLeaves,
        Block::Wood,
        Block::Water,
        Block::Cloud,
    ];
    assert(blocks@ =~= hotbar());
    let mut current_idx: usize = 0;
    let mut found = false;
    let mut i: usize = 0;
    while i < 11 && !found
        invariant
            i <= 11,
            blocks@ == hotbar(),
            found ==> current_idx < 11 && blocks@[current_idx as int] == selected && forall|j: int|
                0 <= j < current_idx ==> blocks@[j] != selected,
            !found ==> current_idx == 0 && forall|j: int| 0 <= j < i ==> blocks@[j] != selected,
        decreases 11 - i + if found { 0int } else { 1int },
    {
        if blocks[i] == selected {
            current_idx = i;
            found = true;
        } else {
            i += 1;
        }
    }
    proof {
        if found {
            assert(hotbar().contains(selected));
            let k = hotbar().index_of(selected);
            assert(hotbar()[k] == selected);
            assert(k == current_idx) by {
                hotbar().index_of_first_ensures(selected);
                lemma_hotbar_distinct();
            }
        } else {
            assert(!hotbar().contains(selected));
        }
    }
    let next_idx = if forward {
        if current_idx < 10 {
            current_idx + 1
        } else {
            0
        }
    } else {
        if current_idx > 0 {
            current_idx - 1
        } else {
            10
        }
    };
    blocks[next_idx]
}

/// No material stands twice in the hotbar.
pub proof fn lemma_hotbar_distinct()
    ensures
        forall|i: int, j: int|
            0 <= i < 11 && 0 <= j < 11 && i != j ==> #[trigger] hotbar()[i] != #[trigger] hotbar()[j],
{
}

/// Material that a key of the number row picks, if it picks one.
pub open spec fn key_block(key: Seq<char>) -> Option<Block> {
    if key == "1"@ {
        Some(Block::Grass)
    } else if key == "2"@ {
        Some(Block::Dirt)
    } else if key == "3"@ {
        Some(Block::Stone)
    } else if key == "4"@ {
        Some(Block::Sand)
    } else if key == "5"@ {
        Some(Block::Gravel)
    } else if key == "6"@ {
        Some(Block::Cobblestone)
    } else if key == "7"@ {
        Some(Block::Bedrock)
    } else if key == "8"@ {
        Some(Block::OakLeaves)
    } else if key == "9"@ {
        Some(Block::Wood)
    } else if key == "0"@ {
        Some(Block::Water)
    } else if key == "-"@ || key == "_"@ {
        Some(Block::Cloud)
    } else {
        None
    }
}

/// High-level input processor
#[derive(Clone)]
pub struct InputProcessor {
    bindings: KeyBindings,
}

impl InputProcessor {
    /// The bindings that the processor reads keys by.
    pub closed spec fn keys(&self) -> KeyBindings {
        self.bindings
    }

    pub fn new(bindings: KeyBindings) -> (p: Self)
        ensures
            p.keys() == bindings,
    {
        Self { bindings }
    }

    pub fn default() -> (p: Self)
        ensures
            p.keys().is_standard(),
    {
        Self::new(KeyBindings::default())
    }

    /// The bindings, for reading.
    pub fn bindings(&self) -> (b: &KeyBindings)
        ensures
            *b == self.keys(),
    {
        &self.bindings
    }

    pub fn wants_to_toggle_camera(&self, key: &str) -> (wants: bool)
        ensures
            wants == same_ignoring_case(key@, self.keys().toggle_camera@),
    {
        eq_ignore_case(key, self.bindings.toggle_camera.as_str())
    }

    pub fn wants_to_toggle_player(&self, key: &str) -> (wants: bool)
        ensures
            wants == same_ignoring_case(key@, self.keys().toggle_player@),
    {
        eq_ignore_case(key, self.bindings.toggle_player.as_str())
    }

    pub fn wants_to_toggle_wireframe(&self, key: &str) -> (wants: bool)
        ensures
            wants == same_ignoring_case(key@, self.keys().toggle_wireframe@),
    {
        eq_ignore_case(key, self.bindings.toggle_wireframe.as_str())
    }

    pub fn wants_to_toggle_chunk_borders(&self, key: &str) -> (wants: bool)
        ensures
            wants == same_ignoring_case(key@, self.keys().toggle_chunk_borders@),
    {
        eq_ignore_case(key, self.bindings.toggle_chunk_borders.as_str())
    }

    pub fn is_escape(&self, key: &str) -> (is: bool)
        ensures
            is == (key@ == self.keys().escape@),
    {
        same_text(key, self.bindings.escape.as_str())
    }

    pub fn block_from_key(&self, key: &str) -> (b: Option<Block>)
        ensures
            b == key_block(key@),
    {
        if same_text(key, "1") {
            Some(Block::Grass)
        } else if same_text(key, "2") {
            Some(Block::Dirt)
        } else if same_text(key, "3") {
            Some(Block::Stone)
        } else if same_text(key, "4") {
            Some(Block::Sand)
        } else if same_text(key, "5") {
            Some(Block::Gravel)
        } else if same_text(key, "6") {
            Some(Block::Cobblestone)
        } else if same_text(key, "7") {
            Some(Block::Bedrock)
        } else if same_text(key, "8") {
            Some(Block::OakLeaves)
        } else if same_text(key, "9") {
            Some(Block::Wood)
        } else if same_text(key, "0") {
            Some(Block::Water)
        } else if same_text(key, "-") || same_text(key, "_") {
            Some(Block::Cloud)
        } else {
            None
        }
    }
}

} // verus!
