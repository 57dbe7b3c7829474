use crate::error::VoxelError;
use vstd::prelude::*;

verus! {

/// A colour: red, green, blue and alpha, each channel `c` standing for `c / 255`.
pub type Color = [u8; 4];

/// The largest handle, and so the number of colours that handles can reach.
pub const MAX_HANDLE: u8 = 255;

/// The position of the first occurrence of `c` in `colors`, or `colors.len()` where
/// `c` does not occur.
pub open spec fn first_index(colors: Seq<Color>, c: Color) -> int
    decreases colors.len(),
{
    if colors.len() == 0 {
        0
    } else {
        let before = first_index(colors.drop_last(), c);
        if before < colors.len() - 1 {
            before
        } else if colors.last() == c {
            colors.len() - 1
        } else {
            colors.len() as int
        }
    }
}

/// What `add_color` returns for `c` on a palette that holds `colors`: one more than
/// the position at which `c` stands, or will stand, if a handle can hold it.
pub open spec fn handle_for(colors: Seq<Color>, c: Color) -> Result<u8, VoxelError> {
    let i = first_index(colors, c);
    if i < MAX_HANDLE {
        Ok((i + 1) as u8)
    } else {
        Err(VoxelError::Range)
    }
}

/// What a palette that holds `colors` holds after `add_color` of `c`: `c` is appended
/// where it is new and a handle can reach the new position.
pub open spec fn with_color(colors: Seq<Color>, c: Color) -> Seq<Color> {
    if first_index(colors, c) == colors.len() && colors.len() < MAX_HANDLE {
        colors.push(c)
    } else {
        colors
    }
}

/// What `get_color` returns for the handle `idx` on a palette that holds `colors`.
pub open spec fn color_of(colors: Seq<Color>, idx: u8) -> Result<Color, VoxelError> {
    if 1 <= idx <= colors.len() {
        Ok(colors[idx - 1])
    } else {
        Err(VoxelError::Range)
    }
}

/// What a palette that holds `colors` holds after one `add_color` for each colour of
/// `added`, in their order.
pub open spec fn with_colors(colors: Seq<Color>, added: Seq<Color>) -> Seq<Color>
    decreases added.len(),
{
    if added.len() == 0 {
        colors
    } else {
        with_color(with_colors(colors, added.drop_last()), added.last())
    }
}

/// `first_index` is the least position at which `c` stands.
pub proof fn lemma_first_index(colors: Seq<Color>, c: Color)
    ensures
        0 <= first_index(colors, c) <= colors.len(),
        first_index(colors, c) < colors.len() ==> colors[first_index(colors, c)] == c,
        first_index(colors, c) < colors.len() <==> colors.contains(c),
        forall|j: int| 0 <= j < first_index(colors, c) ==> colors[j] != c,
    decreases colors.len(),
{
    if colors.len() > 0 {
        let front = colors.drop_last();
        lemma_first_index(front, c);
        if first_index(front, c) < front.len() {
            assert(colors[first_index(front, c)] == c);
        } else if colors.last() == c {
        } else {
            assert forall|j: int| 0 <= j < colors.len() implies colors[j] != c by {
                if j < front.len() {
                    assert(front[j] == colors[j]);
                }
            }
        }
        assert forall|j: int| 0 <= j < first_index(colors, c) implies colors[j] != c by {
            if j < front.len() {
                assert(front[j] == colors[j]);
            }
        }
    }
}

/// An ordered list of colours. The colour at position `i` has the handle `i + 1`;
/// the handle 0 stands for "no colour". A palette only ever grows at its end, so a
/// handle keeps its colour.
pub struct Palette {
    data: Vec<Color>,
}

impl Palette {
    /// The colours, in the order of their handles.
    pub closed spec fn view(&self) -> Seq<Color> {
        self.data@
    }

    /// A palette without colours.
    pub fn empty() -> (palette: Palette)
        ensures
            palette@ == Seq::<Color>::empty(),
    {
        Palette { data: Vec::new() }
    }

    /// A palette that holds `colors` as they stand: a colour that occurs twice keeps
    /// both positions.
    pub fn from(colors: Vec<Color>) -> (palette: Palette)
        ensures
            palette@ == colors@,
    {
        Palette { data: colors }
    }

    /// The number of colours.
    pub fn len(&self) -> (n: usize)
        ensures
            n == self@.len(),
    {
        self.data.len()
    }

    /// The colour of the handle `idx`, which must be one that the palette has given
    /// out: at least 1 and at most the number of colours.
    pub fn get_color(&self, idx: u8) -> (r: Result<Color, VoxelError>)
        ensures
            r == color_of(self@, idx),
    {
        if idx >= 1 && (idx as usize) <= self.data.len() {
            Ok(self.data[(idx - 1) as usize])
        } else {
            Err(VoxelError::Range)
        }
    }

    /// The handle of the colour `(r, g, b, a)`: that of its first occurrence where the
    /// palette holds it, else that of a new entry at the end. Fails, and leaves the
    /// palette as it was, where that handle would be above `MAX_HANDLE`.
    pub fn add_color(&mut self, r: u8, g: u8, b: u8, a: u8) -> (handle: Result<u8, VoxelError>)
        ensures
            handle == handle_for(old(self)@, [r, g, b, a]),
            final(self)@ == with_color(old(self)@, [r, g, b, a]),
            old(self)@.is_prefix_of(final(self)@),
            handle matches Ok(h) ==> 1 <= h <= final(self)@.len() && final(self)@[h - 1] == [r, g, b, a],
    {
        let ghost c: Color = [r, g, b, a];
        let n = self.data.len();
        let mut i: usize = 0;
        while i < n
            invariant
                i <= n,
                n == self.data@.len(),
                self.data@ == old(self)@,
                c == [r, g, b, a],
                forall|j: int| 0 <= j < i ==> self.data@[j] != c,
            decreases n - i,
        {
            let rgba = self.data[i];
            if rgba[0] == r && rgba[1] == g && rgba[2] == b && rgba[3] == a {
                proof {
                    assert(rgba =~= c);
                    lemma_first_index(old(self)@, c);
                }
                if i < MAX_HANDLE as usize {
                    return Ok((i + 1) as u8);
                } else {
                    return Err(VoxelError::Range);
                }
            }
            assert(self.data@[i as int] != c);
            i += 1;
        }
        proof {
            lemma_first_index(old(self)@, c);
        }
        if n < MAX_HANDLE as usize {
            self.data.push([r, g, b, a]);
            Ok((n + 1) as u8)
        } else {
            Err(VoxelError::Range)
        }
    }
}

/// Adding a colour a second time returns the handle that the first time returned,
/// and changes nothing: the two calls together lengthen the palette by one colour at
/// most.
pub proof fn lemma_add_color_again(colors: Seq<Color>, c: Color)
    ensures
        handle_for(with_color(colors, c), c) == handle_for(colors, c),
        with_color(with_color(colors, c), c) == with_color(colors, c),
        colors.len() <= with_color(colors, c).len() <= colors.len() + 1,
{
    lemma_first_index(colors, c);
    lemma_first_index(with_color(colors, c), c);
    if first_index(colors, c) < colors.len() {
    } else if colors.len() < MAX_HANDLE {
        assert(colors.push(c).drop_last() == colors);
    }
}

/// The handle that `add_color` returns leads `get_color` back to the colour.
pub proof fn lemma_get_added_color(colors: Seq<Color>, c: Color)
    ensures
        handle_for(colors, c) matches Ok(h) ==> color_of(with_color(colors, c), h) == Ok::<
            Color,
            VoxelError,
        >(c),
{
    lemma_first_index(colors, c);
}

/// Adding a colour leaves the colours of the handles that were given out.
pub proof fn lemma_with_color_keeps(colors: Seq<Color>, c: Color, idx: u8)
    requires
        1 <= idx <= colors.len(),
    ensures
        colors.is_prefix_of(with_color(colors, c)),
        color_of(with_color(colors, c), idx) == color_of(colors, idx),
{
}

/// A palette in which no colour occurs twice stays so when a colour is added.
pub proof fn lemma_with_color_distinct(colors: Seq<Color>, c: Color)
    requires
        colors.no_duplicates(),
    ensures
        with_color(colors, c).no_duplicates(),
{
    lemma_first_index(colors, c);
}

/// A palette in which no colour occurs twice stays so when colours are added.
pub proof fn lemma_with_colors_distinct(colors: Seq<Color>, added: Seq<Color>)
    requires
        colors.no_duplicates(),
    ensures
        with_colors(colors, added).no_duplicates(),
    decreases added.len(),
{
    if added.len() > 0 {
        lemma_with_colors_distinct(colors, added.drop_last());
        lemma_with_color_distinct(with_colors(colors, added.drop_last()), added.last());
    }
}

/// Colours that differ from each other and from those of the palette get the
/// handles that follow the palette's, counting up by one, as long as handles
/// last: on an empty palette they are 1, 2, 3 and so on.
pub proof fn lemma_new_colors_count_up(colors: Seq<Color>, added: Seq<Color>, i: int)
    requires
        added.no_duplicates(),
        forall|j: int| 0 <= j < added.len() ==> !colors.contains(#[trigger] added[j]),
        0 <= i < added.len(),
        colors.len() + i < MAX_HANDLE,
    ensures
        with_colors(colors, added.take(i)) == colors + added.take(i),
        handle_for(with_colors(colors, added.take(i)), added[i]) == Ok::<u8, VoxelError>(
            (colors.len() + i + 1) as u8,
        ),
    decreases i,
{
    let before = added.take(i);
    if i > 0 {
        lemma_new_colors_count_up(colors, added, i - 1);
        let earlier = colors + added.take(i - 1);
        assert(before.drop_last() == added.take(i - 1));
        assert(before.last() == added[i - 1]);
        lemma_first_index(earlier, added[i - 1]);
        assert(first_index(earlier, added[i - 1]) == earlier.len());
        assert(earlier.push(added[i - 1]) == colors + before);
    } else {
        assert(colors + before == colors);
    }
    let held = colors + before;
    lemma_first_index(held, added[i]);
    if held.contains(added[i]) {
        let k = choose|k: int| 0 <= k < held.len() && held[k] == added[i];
        if k < colors.len() {
            assert(colors[k] == added[i]);
        } else {
            assert(added[k - colors.len()] == added[i]);
        }
    }
}

} // verus!
