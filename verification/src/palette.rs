//! Ordered palettes of unique colors, and the collection that manages them.

use vstd::prelude::*;

use crate::color::Color;
use crate::text::{format_u64, spec_decimal};

verus! {

/// An ordered sequence of colors, unique up to canonical-RGB equality.
#[derive(Clone, Debug)]
pub struct Palette {
    pub colors: Vec<Color>,
}

/// Whether a sequence of colors already holds one that resolves to the same
/// canonical RGB value.
pub open spec fn spec_seq_contains(s: Seq<Color>, c: Color) -> bool {
    exists|i: int| 0 <= i < s.len() && s[i].spec_same(&c)
}

/// The sequence after an add: unchanged on a duplicate, appended otherwise.
pub open spec fn spec_seq_add(s: Seq<Color>, c: Color) -> Seq<Color> {
    if spec_seq_contains(s, c) {
        s
    } else {
        s.push(c)
    }
}

/// The first `i` colors of `list`, added in order with duplicates dropped.
pub open spec fn spec_dedup_prefix(list: Seq<Color>, i: int) -> Seq<Color>
    decreases i,
{
    if i <= 0 {
        Seq::empty()
    } else {
        spec_seq_add(spec_dedup_prefix(list, i - 1), list[i - 1])
    }
}

impl Palette {
    /// Colors are well-formed and pairwise distinct.
    pub open spec fn wf(&self) -> bool {
        (forall|i: int| 0 <= i < self.colors@.len() ==> (#[trigger] self.colors@[i]).wf())
            && (forall|i: int, j: int|
            0 <= i < j < self.colors@.len() ==> !self.colors@[i].spec_same(&self.colors@[j]))
    }

    /// An empty palette.
    pub fn new() -> (p: Self)
        ensures
            p.wf(),
            p.colors@.len() == 0,
    {
        Palette { colors: Vec::new() }
    }

    /// A palette built by adding each color in order, dropping duplicates.
    pub fn from_colors(list: &Vec<Color>) -> (p: Self)
        requires
            forall|i: int| 0 <= i < list@.len() ==> (#[trigger] list@[i]).wf(),
        ensures
            p.wf(),
            p.colors@ == spec_dedup_prefix(list@, list@.len() as int),
    {
        let mut p = Palette::new();
        let mut i: usize = 0;
        assert(p.colors@ =~= spec_dedup_prefix(list@, 0));
        while i < list.len()
            invariant
                p.wf(),
                i <= list@.len(),
                forall|k: int| 0 <= k < list@.len() ==> (#[trigger] list@[k]).wf(),
                p.colors@ == spec_dedup_prefix(list@, i as int),
            decreases list@.len() - i,
        {
            p.add(list[i]);
            i += 1;
        }
        p
    }

    /// The number of colors.
    pub fn len(&self) -> (r: usize)
        ensures
            r == self.colors@.len(),
    {
        self.colors.len()
    }

    /// Whether the palette holds no color.
    pub fn is_empty(&self) -> (r: bool)
        ensures
            r == (self.colors@.len() == 0),
    {
        self.colors.len() == 0
    }

    /// The color at a position.
    pub fn get_color(&self, i: usize) -> (r: &Color)
        requires
            i < self.colors@.len(),
        ensures
            *r == self.colors@[i as int],
    {
        &self.colors[i]
    }

    /// Whether some held color resolves to the same canonical RGB value.
    pub fn contains(&self, color: &Color) -> (r: bool)
        requires
            self.wf(),
            color.wf(),
        ensures
            r == spec_seq_contains(self.colors@, *color),
    {
        let mut i: usize = 0;
        while i < self.colors.len()
            invariant
                self.wf(),
                color.wf(),
                i <= self.colors@.len(),
                forall|k: int| 0 <= k < i as int ==> !(#[trigger] self.colors@[k]).spec_same(color),
            decreases self.colors@.len() - i,
        {
            if self.colors[i].same_color(color) {
                return true;
            }
            i += 1;
        }
        false
    }

    /// Appends a color not yet present; a duplicate is rejected and the
    /// palette is left unchanged.
    pub fn add(&mut self, color: Color) -> (r: bool)
        requires
            old(self).wf(),
            color.wf(),
        ensures
            final(self).wf(),
            final(self).colors@ == spec_seq_add(old(self).colors@, color),
            r == !spec_seq_contains(old(self).colors@, color),
    {
        if self.contains(&color) {
            false
        } else {
            self.colors.push(color);
            true
        }
    }

    /// Removes and returns the color at a position; out of range, nothing
    /// happens.
    pub fn remove_pos(&mut self, i: usize) -> (r: Option<Color>)
        requires
            old(self).wf(),
        ensures
            final(self).wf(),
            i < old(self).colors@.len() ==> {
                &&& r == Some(old(self).colors@[i as int])
                &&& final(self).colors@ == old(self).colors@.remove(i as int)
            },
            i >= old(self).colors@.len() ==> r is None && final(self).colors@ == old(self).colors@,
    {
        if i < self.colors.len() {
            let c = self.colors.remove(i);
            proof {
                let s = old(self).colors@;
                let t = self.colors@;
                assert forall|a: int, b: int| 0 <= a < b < t.len() implies !t[a].spec_same(
                    &t[b],
                ) by {
                    let a0 = if a < i as int {
                        a
                    } else {
                        a + 1
                    };
                    let b0 = if b < i as int {
                        b
                    } else {
                        b + 1
                    };
                    assert(t[a] == s[a0] && t[b] == s[b0]);
                }
            }
            Some(c)
        } else {
            None
        }
    }

    /// Whether two palettes hold the same colors in the same order, compared
    /// by canonical RGB value.
    pub open spec fn spec_eq(&self, other: &Palette) -> bool {
        self.colors@.len() == other.colors@.len() && (forall|i: int|
            0 <= i < self.colors@.len() ==> (#[trigger] self.colors@[i]).spec_same(
                &other.colors@[i],
            ))
    }

    /// Compares two palettes color by color.
    pub fn eq_palette(&self, other: &Palette) -> (r: bool)
        requires
            self.wf(),
            other.wf(),
        ensures
            r == self.spec_eq(other),
    {
        if self.colors.len() != other.colors.len() {
            return false;
        }
        let mut i: usize = 0;
        while i < self.colors.len()
            invariant
                self.wf(),
                other.wf(),
                self.colors@.len() == other.colors@.len(),
                i <= self.colors@.len(),
                forall|k: int| 0 <= k < i as int ==> (#[trigger] self.colors@[k]).spec_same(
                    &other.colors@[k],
                ),
            decreases self.colors@.len() - i,
        {
            if !self.colors[i].same_color(&other.colors[i]) {
                return false;
            }
            i += 1;
        }
        true
    }
}

/// A palette together with its name, the key inside a collection.
#[derive(Clone, Debug)]
pub struct NamedPalette {
    pub name: String,
    pub palette: Palette,
}

/// The name given to a freshly seeded palette.
pub open spec fn spec_default_name() -> Seq<char> {
    "palette"@
}

impl NamedPalette {
    /// The held palette is well-formed.
    pub open spec fn wf(&self) -> bool {
        self.palette.wf()
    }

    /// Whether two named palettes agree on name and colors.
    pub open spec fn spec_eq(&self, other: &NamedPalette) -> bool {
        self.name@ == other.name@ && self.palette.spec_eq(&other.palette)
    }

    /// Compares name and colors.
    pub fn eq_named(&self, other: &NamedPalette) -> (r: bool)
        requires
            self.wf(),
            other.wf(),
        ensures
            r == self.spec_eq(other),
    {
        self.name == other.name && self.palette.eq_palette(&other.palette)
    }
}

impl Default for NamedPalette {
    /// An empty palette under the default name.
    fn default() -> (d: Self)
        ensures
            d.wf(),
            d.name@ == spec_default_name(),
            d.palette.colors@.len() == 0,
    {
        NamedPalette { name: "palette".to_owned(), palette: Palette::new() }
    }
}

/// An ordered, never empty list of named palettes with a current selection.
#[derive(Clone, Debug)]
pub struct Palettes {
    pub palettes: Vec<NamedPalette>,
    pub current_idx: usize,
}

/// Whether some palette in the sequence carries this name.
pub open spec fn spec_has_name(s: Seq<NamedPalette>, name: Seq<char>) -> bool {
    exists|i: int| 0 <= i < s.len() && s[i].name@ == name
}

/// The sequence after an add: unchanged when the name is taken, appended
/// otherwise.
pub open spec fn spec_add_named(s: Seq<NamedPalette>, p: NamedPalette) -> Seq<NamedPalette> {
    if spec_has_name(s, p.name@) {
        s
    } else {
        s.push(p)
    }
}

/// The current index after removing position `i`: it follows the entry it
/// pointed at, and moves one back when the removal was at or before it.
pub open spec fn spec_idx_after_remove(cur: int, i: int) -> int {
    if i <= cur && cur > 0 {
        cur - 1
    } else {
        cur
    }
}

impl Palettes {
    /// At least one palette, a valid current index, and unique names.
    pub open spec fn wf(&self) -> bool {
        &&& self.palettes@.len() > 0
        &&& (self.current_idx as int) < self.palettes@.len()
        &&& (forall|i: int| 0 <= i < self.palettes@.len() ==> (#[trigger] self.palettes@[i]).wf())
        &&& (forall|i: int, j: int|
            0 <= i < j < self.palettes@.len() ==> self.palettes@[i].name@
                != self.palettes@[j].name@)
    }

    /// A collection holding the one given palette, selected.
    pub fn new(palette: NamedPalette) -> (r: Self)
        requires
            palette.wf(),
        ensures
            r.wf(),
            r.palettes@.len() == 1,
            r.palettes@[0] == palette,
            r.current_idx == 0,
    {
        let mut v: Vec<NamedPalette> = Vec::new();
        v.push(palette);
        Palettes { palettes: v, current_idx: 0 }
    }

    /// The position of the selected palette.
    pub fn current_idx(&self) -> (r: usize)
        ensures
            r == self.current_idx,
    {
        self.current_idx
    }

    /// The selected palette.
    pub fn current(&self) -> (r: &NamedPalette)
        requires
            self.wf(),
        ensures
            *r == self.palettes@[self.current_idx as int],
    {
        &self.palettes[self.current_idx]
    }

    /// The number of palettes.
    pub fn len(&self) -> (r: usize)
        ensures
            r == self.palettes@.len(),
    {
        self.palettes.len()
    }

    /// The palette at a position.
    pub fn get(&self, i: usize) -> (r: &NamedPalette)
        requires
            i < self.palettes@.len(),
        ensures
            *r == self.palettes@[i as int],
    {
        &self.palettes[i]
    }

    /// Moves the selection to the previous palette, stopping at the first.
    pub fn prev(&mut self)
        requires
            old(self).wf(),
        ensures
            final(self).wf(),
            final(self).palettes@ == old(self).palettes@,
            final(self).current_idx == if old(self).current_idx > 0 {
                old(self).current_idx - 1
            } else {
                0int
            },
    {
        if self.current_idx > 0 {
            self.current_idx = self.current_idx - 1;
        }
    }

    /// Selects the palette carrying `name`; an absent name changes nothing.
    pub fn move_to_name(&mut self, name: &str)
        requires
            old(self).wf(),
        ensures
            final(self).wf(),
            final(self).palettes@ == old(self).palettes@,
            !spec_has_name(old(self).palettes@, name@) ==> final(self).current_idx == old(self).current_idx,
            forall|i: int|
                0 <= i < old(self).palettes@.len() && old(self).palettes@[i].name@ == name@
                    ==> final(self).current_idx == i,
    {
        let target: String = name.to_owned();
        let mut i: usize = 0;
        while i < self.palettes.len()
            invariant
                self.wf(),
                *self == *old(self),
                target@ == name@,
                i <= self.palettes@.len(),
                forall|k: int| 0 <= k < i as int ==> (#[trigger] self.palettes@[k]).name@ != name@,
            decreases self.palettes@.len() - i,
        {
            if self.palettes[i].name == target {
                self.current_idx = i;
                return ;
            }
            i += 1;
        }
    }

    /// Appends a fresh empty palette named after the count so far; a name
    /// collision leaves the collection unchanged.
    pub fn append_empty(&mut self)
        requires
            old(self).wf(),
        ensures
            final(self).wf(),
            final(self).current_idx == old(self).current_idx,
            ({
                let nm = spec_default_name() + spec_decimal(old(self).palettes@.len() - 1);
                if spec_has_name(old(self).palettes@, nm) {
                    final(self).palettes@ == old(self).palettes@
                } else {
                    &&& final(self).palettes@.len() == old(self).palettes@.len() + 1
                    &&& final(self).palettes@.drop_last() == old(self).palettes@
                    &&& final(self).palettes@.last().name@ == nm
                    &&& final(self).palettes@.last().palette.colors@.len() == 0
                }
            }),
    {
        let mut name: String = "palette".to_owned();
        let count = format_u64((self.palettes.len() - 1) as u64);
        name.append(count.as_str());
        self.add(NamedPalette { name, palette: Palette::new() });
    }

    /// Appends a palette whose name is not yet taken; a taken name is
    /// rejected and the collection is left unchanged.
    pub fn add(&mut self, palette: NamedPalette) -> (r: bool)
        requires
            old(self).wf(),
            palette.wf(),
        ensures
            final(self).wf(),
            final(self).palettes@ == spec_add_named(old(self).palettes@, palette),
            final(self).current_idx == old(self).current_idx,
            r == !spec_has_name(old(self).palettes@, palette.name@),
    {
        let mut i: usize = 0;
        while i < self.palettes.len()
            invariant
                self.wf(),
                *self == *old(self),
                i <= self.palettes@.len(),
                forall|k: int| 0 <= k < i as int ==> (#[trigger] self.palettes@[k]).name@
                    != palette.name@,
            decreases self.palettes@.len() - i,
        {
            if self.palettes[i].name == palette.name {
                return false;
            }
            i += 1;
        }
        self.palettes.push(palette);
        true
    }

    /// Adds a color to the selected palette; a duplicate color is rejected
    /// and nothing changes.
    pub fn add_to_current(&mut self, color: Color) -> (r: bool)
        requires
            old(self).wf(),
            color.wf(),
        ensures
            final(self).wf(),
            final(self).current_idx == old(self).current_idx,
            ({
                let cur = old(self).current_idx as int;
                let before = old(self).palettes@[cur];
                &&& r == !spec_seq_contains(before.palette.colors@, color)
                &&& final(self).palettes@[cur].name@ == before.name@
                &&& final(self).palettes@[cur].palette.colors@ == spec_seq_add(
                    before.palette.colors@,
                    color,
                )
                &&& forall|j: int|
                    0 <= j < old(self).palettes@.len() && j != cur ==> final(self).palettes@[j]
                        == old(self).palettes@[j]
                &&& final(self).palettes@.len() == old(self).palettes@.len()
            }),
    {
        let cur = self.current_idx;
        let r = self.palettes[cur].palette.add(color);
        r
    }

    /// Removes and returns the palette at a position. Removing the only
    /// palette reseeds a default empty one; a removal at or before the
    /// selection moves the selection one back.
    pub fn remove_pos(&mut self, i: usize) -> (r: Option<NamedPalette>)
        requires
            old(self).wf(),
        ensures
            final(self).wf(),
            i >= old(self).palettes@.len() ==> r is None && final(self).palettes@ == old(self).palettes@ && final(self).current_idx == old(self).current_idx,
            i < old(self).palettes@.len() ==> {
                &&& r == Some(old(self).palettes@[i as int])
                &&& (old(self).palettes@.len() == 1 ==> final(self).palettes@.len() == 1 && final(self).palettes@[0].name@ == spec_default_name() && final(self).palettes@[0].palette.colors@.len() == 0 && final(self).current_idx == 0)
                &&& (old(self).palettes@.len() > 1 ==> final(self).palettes@ == old(self).palettes@.remove(i as int) && final(self).current_idx == spec_idx_after_remove(
                    old(self).current_idx as int,
                    i as int,
                ))
            },
    {
        if i < self.palettes.len() {
            let removed = self.palettes.remove(i);
            if self.palettes.len() == 0 {
                self.palettes.push(NamedPalette::default());
                self.current_idx = 0;
            }
            if i <= self.current_idx {
                if self.current_idx > 0 {
                    self.current_idx = self.current_idx - 1;
                }
            }
            proof {
                if old(self).palettes@.len() > 1 {
                    let s = old(self).palettes@;
                    let t = self.palettes@;
                    assert forall|a: int, b: int| 0 <= a < b < t.len() implies t[a].name@
                        != t[b].name@ by {
                        let a0 = if a < i as int {
                            a
                        } else {
                            a + 1
                        };
                        let b0 = if b < i as int {
                            b
                        } else {
                            b + 1
                        };
                        assert(t[a] == s[a0] && t[b] == s[b0]);
                    }
                }
            }
            Some(removed)
        } else {
            None
        }
    }

    /// Finds the first palette equal to the given one (by name and colors)
    /// and removes it as `remove_pos` does; no match changes nothing.
    pub fn remove(&mut self, palette: &NamedPalette) -> (r: Option<NamedPalette>)
        requires
            old(self).wf(),
            palette.wf(),
        ensures
            final(self).wf(),
            (forall|i: int|
                0 <= i < old(self).palettes@.len() ==> !(#[trigger] old(self).palettes@[i]).spec_eq(palette)) ==> r is None && final(self).palettes@ == old(self).palettes@ && final(self).current_idx == old(self).current_idx,
            (exists|i: int|
                0 <= i < old(self).palettes@.len() && (#[trigger] old(self).palettes@[i]).spec_eq(
                    palette,
                )) ==> (exists|i: int|
                #![trigger old(self).palettes@[i]]
                {
                    &&& 0 <= i < old(self).palettes@.len()
                    &&& old(self).palettes@[i].spec_eq(palette)
                    &&& forall|j: int| 0 <= j < i ==> !old(self).palettes@[j].spec_eq(palette)
                    &&& r == Some(old(self).palettes@[i])
                    &&& (old(self).palettes@.len() == 1 ==> final(self).palettes@.len() == 1
                        && final(self).palettes@[0].name@ == spec_default_name() && final(self).palettes@[0].palette.colors@.len() == 0 && final(self).current_idx == 0)
                    &&& (old(self).palettes@.len() > 1 ==> final(self).palettes@ == old(self).palettes@.remove(i) && final(self).current_idx == spec_idx_after_remove(
                        old(self).current_idx as int,
                        i,
                    ))
                }),
    {
        let mut i: usize = 0;
        while i < self.palettes.len()
            invariant
                self.wf(),
                *self == *old(self),
                palette.wf(),
                i <= self.palettes@.len(),
                forall|k: int| 0 <= k < i as int ==> !(#[trigger] self.palettes@[k]).spec_eq(
                    palette,
                ),
            decreases self.palettes@.len() - i,
        {
            if self.palettes[i].eq_named(palette) {
                let ghost gi = i as int;
                let res = self.remove_pos(i);
                proof {
                    assert(0 <= gi < old(self).palettes@.len() && old(self).palettes@[gi].spec_eq(
                        palette,
                    ));
                }
                return res;
            }
            i += 1;
        }
        None
    }
}

impl Default for Palettes {
    /// A collection holding one default palette.
    fn default() -> (r: Self)
        ensures
            r.wf(),
            r.palettes@.len() == 1,
            r.palettes@[0].name@ == spec_default_name(),
            r.palettes@[0].palette.colors@.len() == 0,
            r.current_idx == 0,
    {
        Palettes::new(NamedPalette::default())
    }
}

} // verus!
