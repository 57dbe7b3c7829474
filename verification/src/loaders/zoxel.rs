use crate::error::VoxelError;
use crate::loaders::json::document;
use crate::loaders::json::json_items;
use crate::loaders::json::json_member;
use crate::loaders::json::json_string;
use crate::loaders::json::json_u64;
use crate::loaders::json::parse;
use crate::palette::Color;
use crate::palette::Palette;
use crate::palette::color_of;
use crate::palette::first_index;
use crate::palette::handle_for;
use crate::palette::lemma_add_color_again;
use crate::palette::lemma_get_added_color;
use crate::palette::lemma_with_color_keeps;
use crate::palette::lemma_with_colors_distinct;
use crate::palette::with_color;
use crate::palette::with_colors;
use crate::voxelblock::VoxelBlock;
use crate::voxelblock::in_block;
use rustc_serialize::json::Json;
use vstd::prelude::*;

verus! {

/// One voxel of a stored model: its coordinates x, y and z, and its colour packed
/// into 32 bits.
pub type Entry = (usize, usize, usize, u32);

/// A stored model, as its document spells it out.
pub struct ZoxelModel {
    pub creator: String,
    pub height: usize,
    pub width: usize,
    pub depth: usize,
    pub version: usize,
    pub frame1: Vec<Entry>,
}

/// What a `ZoxelModel` holds.
pub struct ModelView {
    pub creator: Seq<char>,
    pub height: usize,
    pub width: usize,
    pub depth: usize,
    pub version: usize,
    pub frame1: Seq<Entry>,
}

impl ZoxelModel {
    pub open spec fn view(&self) -> ModelView {
        ModelView {
            creator: self.creator@,
            height: self.height,
            width: self.width,
            depth: self.depth,
            version: self.version,
            frame1: self.frame1@,
        }
    }
}

/// The number that `json` holds, where it is an integer from 0 to `usize::MAX`.
pub open spec fn json_usize(json: Json) -> Option<usize> {
    match json_u64(json) {
        Some(n) => if n <= usize::MAX {
            Some(n as usize)
        } else {
            None
        },
        None => None,
    }
}

/// The number that `json` holds, where it is an integer from 0 to `u32::MAX`.
pub open spec fn json_u32(json: Json) -> Option<u32> {
    match json_u64(json) {
        Some(n) => if n <= u32::MAX {
            Some(n as u32)
        } else {
            None
        },
        None => None,
    }
}

/// The number that the object `doc` has under `key`.
pub open spec fn field_usize(doc: Json, key: Seq<char>) -> Option<usize> {
    match json_member(doc, key) {
        Some(json) => json_usize(json),
        None => None,
    }
}

/// The text that the object `doc` has under `key`.
pub open spec fn field_string(doc: Json, key: Seq<char>) -> Option<Seq<char>> {
    match json_member(doc, key) {
        Some(json) => json_string(json),
        None => None,
    }
}

/// The voxel that `json` spells out: an array of exactly four numbers.
pub open spec fn entry_of(json: Json) -> Option<Entry> {
    match json_items(json) {
        Some(items) => if items.len() == 4 && json_usize(items[0]) is Some && json_usize(
            items[1],
        ) is Some && json_usize(items[2]) is Some && json_u32(items[3]) is Some {
            Some(
                (
                    json_usize(items[0])->0,
                    json_usize(items[1])->0,
                    json_usize(items[2])->0,
                    json_u32(items[3])->0,
                ),
            )
        } else {
            None
        },
        None => None,
    }
}

/// The voxels that `items` spell out, where each of them spells one out.
pub open spec fn entries_of(items: Seq<Json>) -> Option<Seq<Entry>> {
    if forall|i: int| 0 <= i < items.len() ==> (#[trigger] entry_of(items[i])) is Some {
        Some(Seq::new(items.len(), |i: int| entry_of(items[i])->0))
    } else {
        None
    }
}

/// The voxels that the object `doc` has under `key`.
pub open spec fn field_entries(doc: Json, key: Seq<char>) -> Option<Seq<Entry>> {
    match json_member(doc, key) {
        Some(json) => match json_items(json) {
            Some(items) => entries_of(items),
            None => None,
        },
        None => None,
    }
}

/// The model that the document `doc` spells out: an object with a text under
/// `creator`, a number under each of `height`, `width`, `depth` and `version`, and a
/// list of voxels under `frame1`. What else the object holds does not count.
pub open spec fn model_of(doc: Json) -> Option<ModelView> {
    if field_string(doc, "creator"@) is Some && field_usize(doc, "height"@) is Some
        && field_usize(doc, "width"@) is Some && field_usize(doc, "depth"@) is Some
        && field_usize(doc, "version"@) is Some && field_entries(doc, "frame1"@) is Some {
        Some(
            ModelView {
                creator: field_string(doc, "creator"@)->0,
                height: field_usize(doc, "height"@)->0,
                width: field_usize(doc, "width"@)->0,
                depth: field_usize(doc, "depth"@)->0,
                version: field_usize(doc, "version"@)->0,
                frame1: field_entries(doc, "frame1"@)->0,
            },
        )
    } else {
        None
    }
}

fn read_usize(json: &Json) -> (r: Option<usize>)
    ensures
        r == json_usize(*json),
{
    match json.as_u64() {
        Some(n) => if n <= usize::MAX as u64 {
            Some(n as usize)
        } else {
            None
        },
        None => None,
    }
}

fn read_u32(json: &Json) -> (r: Option<u32>)
    ensures
        r == json_u32(*json),
{
    match json.as_u64() {
        Some(n) => if n <= u32::MAX as u64 {
            Some(n as u32)
        } else {
            None
        },
        None => None,
    }
}

fn read_field(doc: &Json, key: &str) -> (r: Option<usize>)
    ensures
        r == field_usize(*doc, key@),
{
    match doc.find(key) {
        Some(json) => read_usize(json),
        None => None,
    }
}

fn read_entry(json: &Json) -> (r: Option<Entry>)
    ensures
        r == entry_of(*json),
{
    let items = match json.as_array() {
        Some(items) => items,
        None => {
            return None;
        },
    };
    if items.len() != 4 {
        return None;
    }
    let x = match read_usize(&items[0]) {
        Some(x) => x,
        None => {
            return None;
        },
    };
    let y = match read_usize(&items[1]) {
        Some(y) => y,
        None => {
            return None;
        },
    };
    let z = match read_usize(&items[2]) {
        Some(z) => z,
        None => {
            return None;
        },
    };
    let v = match read_u32(&items[3]) {
        Some(v) => v,
        None => {
            return None;
        },
    };
    Some((x, y, z, v))
}

fn read_entries(items: &Vec<Json>) -> (r: Option<Vec<Entry>>)
    ensures
        match r {
            Some(entries) => entries_of(items@) == Some(entries@),
            None => entries_of(items@) is None,
        },
{
    let mut entries: Vec<Entry> = Vec::new();
    let mut i: usize = 0;
    while i < items.len()
        invariant
            i <= items.len(),
            entries@.len() == i,
            forall|j: int| 0 <= j < i ==> entry_of(#[trigger] items@[j]) == Some(entries@[j]),
        decreases items.len() - i,
    {
        match read_entry(&items[i]) {
            Some(entry) => {
                entries.push(entry);
            },
            None => {
                return None;
            },
        }
        i += 1;
    }
    assert(entries@ =~= Seq::new(items@.len(), |i: int| entry_of(items@[i])->0));
    Some(entries)
}

/// Reads a model from a document: every field must be there, with a value of its
/// kind.
pub fn decode(doc: &Json) -> (r: Result<ZoxelModel, VoxelError>)
    ensures
        match r {
            Ok(model) => model_of(*doc) == Some(model@),
            Err(e) => model_of(*doc) is None && e == VoxelError::Parse,
        },
{
    let creator = match doc.find("creator") {
        Some(json) => match json.as_string() {
            Some(text) => text.to_owned(),
            None => {
                return Err(VoxelError::Parse);
            },
        },
        None => {
            return Err(VoxelError::Parse);
        },
    };
    let height = match read_field(doc, "height") {
        Some(n) => n,
        None => {
            return Err(VoxelError::Parse);
        },
    };
    let width = match read_field(doc, "width") {
        Some(n) => n,
        None => {
            return Err(VoxelError::Parse);
        },
    };
    let depth = match read_field(doc, "depth") {
        Some(n) => n,
        None => {
            return Err(VoxelError::Parse);
        },
    };
    let version = match read_field(doc, "version") {
        Some(n) => n,
        None => {
            return Err(VoxelError::Parse);
        },
    };
    let frame1 = match doc.find("frame1") {
        Some(json) => match json.as_array() {
            Some(items) => match read_entries(items) {
                Some(entries) => entries,
                None => {
                    return Err(VoxelError::Parse);
                },
            },
            None => {
                return Err(VoxelError::Parse);
            },
        },
        None => {
            return Err(VoxelError::Parse);
        },
    };
    Ok(ZoxelModel { creator, height, width, depth, version, frame1 })
}

/// The colour that `packed` holds: red in bits 31 to 24, green in bits 23 to 16, blue
/// in bits 15 to 8 and alpha in bits 7 to 0.
pub open spec fn unpacked(packed: u32) -> Color {
    [
        (packed / 0x100_0000) as u8,
        (packed / 0x1_0000 % 0x100) as u8,
        (packed / 0x100 % 0x100) as u8,
        (packed % 0x100) as u8,
    ]
}

/// The colours of the voxels `entries`, one for each voxel.
pub open spec fn entry_colors(entries: Seq<Entry>) -> Seq<Color> {
    entries.map_values(|entry: Entry| unpacked(entry.3))
}

/// The colours of a palette that was empty before the voxels `entries` were loaded:
/// the colour of each voxel is added in turn.
pub open spec fn loaded_colors(entries: Seq<Entry>) -> Seq<Color> {
    with_colors(Seq::empty(), entry_colors(entries))
}

/// Loading one more voxel adds its colour to the palette.
pub proof fn lemma_loaded_colors_step(entries: Seq<Entry>)
    requires
        entries.len() > 0,
    ensures
        loaded_colors(entries) == with_color(
            loaded_colors(entries.drop_last()),
            unpacked(entries.last().3),
        ),
{
    assert(entry_colors(entries).drop_last() == entry_colors(entries.drop_last()));
}

/// The handle that voxel `i` of `entries` gets: that of its colour in the palette of
/// the voxels before it.
pub open spec fn loaded_handle(entries: Seq<Entry>, i: int) -> Result<u8, VoxelError> {
    handle_for(loaded_colors(entries.take(i)), unpacked(entries[i].3))
}

/// Whether every voxel of `entries` lies in the block and gets a handle.
pub open spec fn loadable(entries: Seq<Entry>) -> bool {
    forall|i: int|
        0 <= i < entries.len() ==> in_block(
            entries[i].0 as int,
            entries[i].1 as int,
            entries[i].2 as int,
        ) && (#[trigger] loaded_handle(entries, i)) is Ok
}

/// The handle in the cell `(x, y, z)` of a block that was empty before the voxels
/// `entries` were loaded: that of the last voxel with these coordinates, or 0.
pub open spec fn loaded_cell(entries: Seq<Entry>, x: int, y: int, z: int) -> u8
    decreases entries.len(),
{
    if entries.len() == 0 {
        0
    } else if entries.last().0 == x && entries.last().1 == y && entries.last().2 == z {
        match loaded_handle(entries, entries.len() - 1) {
            Ok(handle) => handle,
            Err(_) => 0,
        }
    } else {
        loaded_cell(entries.drop_last(), x, y, z)
    }
}

/// Whether `r` is what loading the voxels `entries` gives: a palette and a block that
/// hold them, or `VoxelError::Range` where one of them does not fit.
pub open spec fn built(entries: Seq<Entry>, r: Result<(Palette, VoxelBlock), VoxelError>) -> bool {
    match r {
        Ok((palette, block)) => {
            &&& loadable(entries)
            &&& palette@ == loaded_colors(entries)
            &&& forall|x: int, y: int, z: int|
                in_block(x, y, z) ==> #[trigger] block.cell(x, y, z) == loaded_cell(entries, x, y, z)
        },
        Err(e) => !loadable(entries) && e == VoxelError::Range,
    }
}

/// Whether `r` is what `load` gives for a text that reads as `doc`.
pub open spec fn loaded(doc: Option<Json>, r: Result<(Palette, VoxelBlock), VoxelError>) -> bool {
    match doc {
        Some(doc) => match model_of(doc) {
            Some(model) => built(model.frame1, r),
            None => r matches Err(e) && e == VoxelError::Parse,
        },
        None => r matches Err(e) && e == VoxelError::Parse,
    }
}

/// No cell of a loaded block holds a handle that the loaded palette has no colour
/// for.
pub proof fn lemma_loaded_handles_fit(entries: Seq<Entry>, x: int, y: int, z: int)
    ensures
        loaded_cell(entries, x, y, z) <= loaded_colors(entries).len(),
    decreases entries.len(),
{
    if entries.len() > 0 {
        let before = entries.drop_last();
        let color = unpacked(entries.last().3);
        assert(entries.take(entries.len() - 1) == before);
        lemma_loaded_colors_step(entries);
        lemma_add_color_again(loaded_colors(before), color);
        lemma_get_added_color(loaded_colors(before), color);
        lemma_loaded_handles_fit(before, x, y, z);
    }
}

/// What `build` returns, `to_mesh` accepts: the palette has a colour for every
/// handle in the block.
pub proof fn lemma_built_block_meshes(entries: Seq<Entry>, palette: Palette, block: VoxelBlock)
    requires
        built(entries, Ok((palette, block))),
    ensures
        block.handles_within(palette@.len()),
{
    assert forall|x: int, y: int, z: int| in_block(x, y, z) implies #[trigger] block.cell(x, y, z)
        <= palette@.len() by {
        lemma_loaded_handles_fit(entries, x, y, z);
        let r: Result<(Palette, VoxelBlock), VoxelError> = Ok((palette, block));
        assert(r->Ok_0.1 == block);
    }
}

/// A loaded palette holds no colour twice.
pub proof fn lemma_loaded_colors_distinct(entries: Seq<Entry>)
    ensures
        loaded_colors(entries).no_duplicates(),
{
    lemma_with_colors_distinct(Seq::empty(), entry_colors(entries));
}

/// Voxels that can be loaded can be loaded without the last of them.
pub proof fn lemma_loadable_before(entries: Seq<Entry>)
    requires
        loadable(entries),
        entries.len() > 0,
    ensures
        loadable(entries.drop_last()),
{
    let before = entries.drop_last();
    assert forall|i: int| 0 <= i < before.len() implies in_block(
        before[i].0 as int,
        before[i].1 as int,
        before[i].2 as int,
    ) && (#[trigger] loaded_handle(before, i)) is Ok by {
        assert(before.take(i) == entries.take(i));
        assert(loaded_handle(entries, i) is Ok);
    }
}

/// The handle in a cell of a loaded block leads to the colour of the last voxel
/// with the coordinates of the cell: that of voxel `i`, where no later voxel lies
/// in the same cell.
pub proof fn lemma_loaded_cell_color(entries: Seq<Entry>, i: int)
    requires
        loadable(entries),
        0 <= i < entries.len(),
        forall|j: int|
            i < j < entries.len() ==> !(entries[j].0 == entries[i].0 && entries[j].1
                == entries[i].1 && entries[j].2 == entries[i].2),
    ensures
        color_of(
            loaded_colors(entries),
            loaded_cell(entries, entries[i].0 as int, entries[i].1 as int, entries[i].2 as int),
        ) == Ok::<Color, VoxelError>(unpacked(entries[i].3)),
    decreases entries.len(),
{
    let before = entries.drop_last();
    let last = unpacked(entries.last().3);
    lemma_loaded_colors_step(entries);
    assert(entries.take(entries.len() - 1) == before);
    if i == entries.len() - 1 {
        assert(loaded_handle(entries, i) is Ok);
        lemma_get_added_color(loaded_colors(before), last);
    } else {
        lemma_loadable_before(entries);
        assert(before[i] == entries[i]);
        lemma_loaded_cell_color(before, i);
        let handle = loaded_cell(
            before,
            entries[i].0 as int,
            entries[i].1 as int,
            entries[i].2 as int,
        );
        lemma_with_color_keeps(loaded_colors(before), last, handle);
    }
}

/// A model of one voxel gives a palette of one colour, that of the voxel, and a
/// block whose one occupied cell is that of the voxel and holds the handle 1.
pub proof fn lemma_one_voxel(entry: Entry, x: int, y: int, z: int)
    requires
        in_block(entry.0 as int, entry.1 as int, entry.2 as int),
    ensures
        loadable(seq![entry]),
        loaded_colors(seq![entry]) == seq![unpacked(entry.3)],
        loaded_cell(seq![entry], x, y, z) == if x == entry.0 && y == entry.1 && z == entry.2 {
            1u8
        } else {
            0u8
        },
{
    let entries = seq![entry];
    let none = Seq::<Color>::empty();
    assert(entries.take(0) == Seq::<Entry>::empty());
    assert(entries.drop_last() == Seq::<Entry>::empty());
    assert(entry_colors(Seq::<Entry>::empty()) == none);
    assert(loaded_colors(Seq::<Entry>::empty()) == none);
    assert(first_index(none, unpacked(entry.3)) == 0);
    lemma_loaded_colors_step(entries);
    assert(none.push(unpacked(entry.3)) == seq![unpacked(entry.3)]);
    assert(loaded_handle(entries, 0) == Ok::<u8, VoxelError>(1u8));
    assert(loaded_cell(Seq::<Entry>::empty(), x, y, z) == 0);
}

/// The four channels of a packed colour.
pub fn unpack(packed: u32) -> (color: Color)
    ensures
        color == unpacked(packed),
{
    let v = packed;
    assert(((v & 0xFF000000) >> 24) == v / 0x100_0000 && v / 0x100_0000 < 0x100) by (bit_vector);
    assert(((v & 0x00FF0000) >> 16) == v / 0x1_0000 % 0x100) by (bit_vector);
    assert(((v & 0x0000FF00) >> 8) == v / 0x100 % 0x100) by (bit_vector);
    assert(((v & 0x000000FF) >> 0) == v % 0x100) by (bit_vector);
    [
        ((v & 0xFF000000) >> 24) as u8,
        ((v & 0x00FF0000) >> 16) as u8,
        ((v & 0x0000FF00) >> 8) as u8,
        ((v & 0x000000FF) >> 0) as u8,
    ]
}

/// The palette and the block that hold the voxels of `model`. The voxels are taken
/// in their order: each one's colour is added to the palette, and the handle is put
/// into the voxel's cell. Fails where a voxel lies outside the block, or where the
/// palette has no handle left for a new colour.
pub fn build(model: &ZoxelModel) -> (r: Result<(Palette, VoxelBlock), VoxelError>)
    ensures
        built(model.frame1@, r),
{
    let mut block = VoxelBlock::new();
    let mut pal = Palette::empty();
    let ghost entries = model.frame1@;
    let mut i: usize = 0;
    while i < model.frame1.len()
        invariant
            i <= entries.len(),
            entries == model.frame1@,
            loadable(entries.take(i as int)),
            pal@ == loaded_colors(entries.take(i as int)),
            forall|x: int, y: int, z: int|
                in_block(x, y, z) ==> #[trigger] block.cell(x, y, z) == loaded_cell(
                    entries.take(i as int),
                    x,
                    y,
                    z,
                ),
        decreases entries.len() - i,
    {
        let (x, y, z, v) = model.frame1[i];
        let color = unpack(v);
        let ghost before = entries.take(i as int);
        let ghost now = entries.take(i + 1);
        proof {
            assert(now.drop_last() == before);
            assert(now.take(i as int) == before);
            assert(now.last() == entries[i as int]);
            assert(color =~= [color[0], color[1], color[2], color[3]]);
            lemma_loaded_colors_step(now);
        }
        let handle = match pal.add_color(color[0], color[1], color[2], color[3]) {
            Ok(handle) => handle,
            Err(e) => {
                proof {
                    assert(loaded_handle(entries, i as int) is Err);
                }
                return Err(VoxelError::Range);
            },
        };
        match block.set(x, y, z, handle) {
            Ok(()) => {},
            Err(e) => {
                proof {
                    assert(loaded_handle(entries, i as int) is Ok);
                    assert(!in_block(
                        entries[i as int].0 as int,
                        entries[i as int].1 as int,
                        entries[i as int].2 as int,
                    ));
                }
                return Err(VoxelError::Range);
            },
        }
        proof {
            assert(loaded_handle(now, i as int) == Ok::<u8, VoxelError>(handle));
            assert forall|j: int| 0 <= j < now.len() implies in_block(
                now[j].0 as int,
                now[j].1 as int,
                now[j].2 as int,
            ) && (#[trigger] loaded_handle(now, j)) is Ok by {
                if j < i {
                    assert(now.take(j) == before.take(j));
                    assert(loaded_handle(before, j) is Ok);
                }
            }
        }
        i += 1;
    }
    proof {
        assert(entries.take(i as int) == entries);
    }
    Ok((pal, block))
}

/// Reads a model from the text of its document and returns the palette and the
/// block that hold its voxels. Fails with `VoxelError::Parse` where the text is no
/// document of a model, and with `VoxelError::Range` where a voxel does not fit.
pub fn load(data: &str) -> (r: Result<(Palette, VoxelBlock), VoxelError>)
    ensures
        loaded(document(data@), r),
{
    let doc = match parse(data) {
        Ok(doc) => doc,
        Err(e) => {
            return Err(e);
        },
    };
    let model = match decode(&doc) {
        Ok(model) => model,
        Err(e) => {
            return Err(e);
        },
    };
    build(&model)
}

} // verus!
