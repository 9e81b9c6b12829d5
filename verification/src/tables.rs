//! The mathematics of the deduplicated tables: interning an entry, and
//! resolving a stack of described frames against a pair of tables.

use crate::model::{FunctionView, Location, LocationIndex};
use vstd::prelude::*;

verus! {

/// The table after `entry` has been interned: unchanged where the entry is
/// already there, else with the entry at its end.
pub open spec fn interned<T>(table: Seq<T>, entry: T) -> Seq<T> {
    if table.contains(entry) {
        table
    } else {
        table.push(entry)
    }
}

/// The index at which `entry` stands once it has been interned.
pub open spec fn slot_of<T>(table: Seq<T>, entry: T) -> int {
    if table.contains(entry) {
        table.index_of(entry)
    } else {
        table.len() as int
    }
}

/// In a table without duplicates, an entry's slot is wherever it is found.
pub proof fn lemma_slot_found<T>(table: Seq<T>, entry: T, i: int)
    requires
        table.no_duplicates(),
        0 <= i < table.len(),
        table[i] == entry,
    ensures
        table.contains(entry),
        slot_of(table, entry) == i,
        interned(table, entry) == table,
{
    assert(table.contains(entry));
    let k = table.index_of(entry);
    assert(0 <= k < table.len() && table[k] == entry);
}

/// Interning keeps a table free of duplicates, keeps every index that was
/// assigned, and puts the entry at its slot.
pub proof fn lemma_interned<T>(table: Seq<T>, entry: T)
    requires
        table.no_duplicates(),
    ensures
        interned(table, entry).no_duplicates(),
        table.len() <= interned(table, entry).len() <= table.len() + 1,
        forall|i: int| 0 <= i < table.len() ==> interned(table, entry)[i] == table[i],
        0 <= slot_of(table, entry) < interned(table, entry).len(),
        interned(table, entry)[slot_of(table, entry)] == entry,
        forall|i: int|
            table.len() <= i < interned(table, entry).len() ==> interned(table, entry)[i] == entry,
{
    if table.contains(entry) {
        let k = table.index_of(entry);
        assert(0 <= k < table.len() && table[k] == entry);
    } else {
        let grown = table.push(entry);
        assert forall|i: int, j: int| 0 <= i < grown.len() && 0 <= j < grown.len() && i != j implies grown[i]
            != grown[j] by {
            if i < table.len() && j < table.len() {
            } else if i < table.len() {
                assert(table.contains(table[i]));
            } else {
                assert(table.contains(table[j]));
            }
        }
    }
}

/// A captured frame once it has been described: the callable unit it ran in
/// and the line that was hit.
pub ghost struct FrameView {
    pub function: FunctionView,
    pub line: i32,
}

/// The function table and the location table of a profile.
pub ghost struct Tables {
    pub functions: Seq<FunctionView>,
    pub locations: Seq<Location>,
}

impl Tables {
    /// Neither table holds an entry twice, every location refers to a
    /// function of the table, and both tables can be indexed by `usize`.
    pub open spec fn wf(self) -> bool {
        &&& self.functions.no_duplicates()
        &&& self.locations.no_duplicates()
        &&& self.fits()
        &&& forall|i: int|
            0 <= i < self.locations.len() ==> (#[trigger] self.locations[i]).function_index
                < self.functions.len()
    }

    /// Both tables can be indexed by `usize`.
    pub open spec fn fits(self) -> bool {
        self.functions.len() <= usize::MAX && self.locations.len() <= usize::MAX
    }

    /// Every index assigned in `self` denotes the same entry in `later`.
    pub open spec fn extended_by(self, later: Tables) -> bool {
        &&& self.functions.len() <= later.functions.len()
        &&& self.locations.len() <= later.locations.len()
        &&& forall|i: int| 0 <= i < self.functions.len() ==> later.functions[i] == self.functions[i]
        &&& forall|i: int| 0 <= i < self.locations.len() ==> later.locations[i] == self.locations[i]
    }

    /// The location that stands for `frame`.
    pub open spec fn location_of(self, frame: FrameView) -> Location {
        Location {
            function_index: slot_of(self.functions, frame.function) as usize,
            line: frame.line,
            address: None,
        }
    }

    /// The index in the location table that a sample's stack holds for
    /// `frame`.
    pub open spec fn index_of_frame(self, frame: FrameView) -> int {
        slot_of(self.locations, self.location_of(frame))
    }

    /// The tables after `frame` has been resolved: first seen, first stored.
    pub open spec fn with_frame(self, frame: FrameView) -> Tables {
        Tables {
            functions: interned(self.functions, frame.function),
            locations: interned(self.locations, self.location_of(frame)),
        }
    }

    /// The tables after the frames have been resolved in their order.
    pub open spec fn with_frames(self, frames: Seq<FrameView>) -> Tables
        decreases frames.len(),
    {
        if frames.len() == 0 {
            self
        } else {
            self.with_frames(frames.drop_last()).with_frame(frames.last())
        }
    }

    /// The stack of location indices that the frames resolve to.
    pub open spec fn stack_of(self, frames: Seq<FrameView>) -> Seq<LocationIndex>
        decreases frames.len(),
    {
        if frames.len() == 0 {
            Seq::empty()
        } else {
            self.stack_of(frames.drop_last()).push(
                self.with_frames(frames.drop_last()).index_of_frame(frames.last()) as usize,
            )
        }
    }

    /// Whether index `index` denotes `frame`: the location there has the
    /// frame's line and no address, and its function is the frame's.
    pub open spec fn denotes(self, index: int, frame: FrameView) -> bool {
        &&& 0 <= index < self.locations.len()
        &&& self.locations[index].line == frame.line
        &&& self.locations[index].address == None::<usize>
        &&& self.locations[index].function_index < self.functions.len()
        &&& self.functions[self.locations[index].function_index as int] == frame.function
    }

    /// Whether `function` is the function of one of the frames.
    pub open spec fn function_seen(frames: Seq<FrameView>, function: FunctionView) -> bool {
        exists|j: int| 0 <= j < frames.len() && (#[trigger] frames[j]).function == function
    }

    /// Whether location `index` of `self` denotes one of the frames.
    pub open spec fn location_seen(self, frames: Seq<FrameView>, index: int) -> bool {
        exists|j: int| 0 <= j < frames.len() && self.denotes(index, #[trigger] frames[j])
    }
}

/// Tables only grow: resolving frames adds at most one function and one
/// location per frame.
pub proof fn lemma_with_frames_grows(tables: Tables, frames: Seq<FrameView>)
    ensures
        tables.functions.len() <= tables.with_frames(frames).functions.len()
            <= tables.functions.len() + frames.len(),
        tables.locations.len() <= tables.with_frames(frames).locations.len()
            <= tables.locations.len() + frames.len(),
        tables.stack_of(frames).len() == frames.len(),
    decreases frames.len(),
{
    if frames.len() > 0 {
        lemma_with_frames_grows(tables, frames.drop_last());
    }
}

/// Resolving one frame keeps the tables well formed, keeps every assigned
/// index, and makes the frame's index denote the frame.
pub proof fn lemma_with_frame(tables: Tables, frame: FrameView)
    requires
        tables.wf(),
        tables.with_frame(frame).fits(),
    ensures
        tables.with_frame(frame).wf(),
        tables.extended_by(tables.with_frame(frame)),
        tables.with_frame(frame).denotes(tables.index_of_frame(frame), frame),
        forall|i: int|
            tables.functions.len() <= i < tables.with_frame(frame).functions.len()
                ==> tables.with_frame(frame).functions[i] == frame.function,
        forall|i: int|
            tables.locations.len() <= i < tables.with_frame(frame).locations.len()
                ==> tables.with_frame(frame).denotes(i, frame),
{
    let after = tables.with_frame(frame);
    let location = tables.location_of(frame);
    lemma_interned(tables.functions, frame.function);
    lemma_interned(tables.locations, location);
    let slot = slot_of(tables.functions, frame.function);
    assert(location.function_index == slot);
    assert forall|i: int| 0 <= i < after.locations.len() implies (#[trigger] after.locations[i]).function_index
        < after.functions.len() by {
        if i < tables.locations.len() {
            assert(after.locations[i] == tables.locations[i]);
        } else {
            assert(after.locations[i] == location);
        }
    }
    let index = tables.index_of_frame(frame);
    assert(after.locations[index] == location);
    assert(after.functions[slot] == frame.function);
    assert forall|i: int| tables.locations.len() <= i < after.locations.len() implies after.denotes(
        i,
        frame,
    ) by {
        assert(after.locations[i] == location);
    }
}

/// Whatever an index denoted before the tables were extended, it denotes
/// after.
pub proof fn lemma_denotes_extended(before: Tables, after: Tables, index: int, frame: FrameView)
    requires
        before.extended_by(after),
        before.denotes(index, frame),
    ensures
        after.denotes(index, frame),
{
}

/// Well-formed tables give one frame one index: an index that denotes a
/// frame is the frame's index.
pub proof fn lemma_denotes_unique(tables: Tables, i: int, j: int, frame: FrameView)
    requires
        tables.wf(),
        tables.denotes(i, frame),
        tables.denotes(j, frame),
    ensures
        i == j,
{
    let fi = tables.locations[i].function_index as int;
    let fj = tables.locations[j].function_index as int;
    assert(tables.functions[fi] == tables.functions[fj]);
    assert(fi == fj);
    assert(tables.locations[i] == tables.locations[j]);
}

/// Resolving a stack of frames keeps the tables well formed and every
/// assigned index in place, gives each frame an index that denotes it, and
/// adds no entry that none of the frames asked for.
pub proof fn lemma_with_frames(tables: Tables, frames: Seq<FrameView>)
    requires
        tables.wf(),
        tables.with_frames(frames).fits(),
    ensures
        tables.with_frames(frames).wf(),
        tables.extended_by(tables.with_frames(frames)),
        tables.stack_of(frames).len() == frames.len(),
        forall|j: int|
            0 <= j < frames.len() ==> tables.with_frames(frames).denotes(
                #[trigger] tables.stack_of(frames)[j] as int,
                frames[j],
            ),
        forall|i: int|
            tables.functions.len() <= i < tables.with_frames(frames).functions.len()
                ==> Tables::function_seen(frames, #[trigger] tables.with_frames(frames).functions[i]),
        forall|i: int|
            tables.locations.len() <= i < tables.with_frames(frames).locations.len()
                ==> #[trigger] tables.with_frames(frames).location_seen(frames, i),
    decreases frames.len(),
{
    if frames.len() > 0 {
        let earlier = frames.drop_last();
        let frame = frames.last();
        let before = tables.with_frames(earlier);
        let after = tables.with_frames(frames);
        let stack = tables.stack_of(frames);
        assert(after == before.with_frame(frame));
        lemma_with_frames(tables, earlier);
        lemma_with_frame(before, frame);
        assert forall|j: int| 0 <= j < frames.len() implies after.denotes(
            #[trigger] stack[j] as int,
            frames[j],
        ) by {
            if j < earlier.len() {
                assert(stack[j] == tables.stack_of(earlier)[j]);
                assert(frames[j] == earlier[j]);
                lemma_denotes_extended(before, after, stack[j] as int, frames[j]);
            } else {
                assert(stack[j] == before.index_of_frame(frame) as usize);
            }
        }
        assert forall|i: int| tables.functions.len() <= i < after.functions.len() implies Tables::function_seen(
            frames,
            #[trigger] after.functions[i],
        ) by {
            if i < before.functions.len() {
                assert(after.functions[i] == before.functions[i]);
                let j = choose|j: int|
                    0 <= j < earlier.len() && (#[trigger] earlier[j]).function == before.functions[i];
                assert(frames[j] == earlier[j]);
            } else {
                assert(frames[frames.len() - 1].function == after.functions[i]);
            }
        }
        assert forall|i: int| tables.locations.len() <= i < after.locations.len() implies #[trigger] after.location_seen(
            frames,
            i,
        ) by {
            if i < before.locations.len() {
                assert(before.location_seen(earlier, i));
                let j = choose|j: int| 0 <= j < earlier.len() && before.denotes(i, #[trigger] earlier[j]);
                assert(frames[j] == earlier[j]);
                lemma_denotes_extended(before, after, i, frames[j]);
            } else {
                assert(after.denotes(i, frames[frames.len() - 1]));
            }
        }
    }
}

} // verus!
