//! The counts of the moderation dossier's digest: one pass over the
//! scene's entities tallies parts, default materials, colours and names,
//! distinct materials, colours and placements, GUI texts, the visible
//! strings and the asset names. Colours, transparency and placements are
//! measured by the caller; the tally sees their outcomes.

use vstd::prelude::*;
use crate::moderation::{
    is_default_name, offered_asset, offered_string, push_asset, push_string, spec_is_default_name, strs,
};
use crate::text::str_eq;

verus! {

/// A colour as 8-bit sRGB.
#[derive(Debug, Clone, Copy, PartialEq, Eq, Structural)]
pub struct Rgb {
    pub r: u8,
    pub g: u8,
    pub b: u8,
}

/// The colour a part has when nobody painted it.
pub open spec fn default_part_rgb() -> Rgb {
    Rgb { r: 163, g: 162, b: 165 }
}

/// A part's placement at centimetre resolution: its position and its size.
#[derive(Debug, Clone, Copy, PartialEq, Eq, Structural)]
pub struct Placement {
    pub x: i64,
    pub y: i64,
    pub z: i64,
    pub size_x: i64,
    pub size_y: i64,
    pub size_z: i64,
}

/// What the dossier reads of one part.
pub struct PartFacts {
    /// The material's name when one was set; empty for a preset.
    pub material_name: String,
    /// The preset material's name.
    pub material: String,
    /// The preset is Plastic.
    pub plastic: bool,
    pub rgb: Rgb,
    /// More than five percent transparent.
    pub transparent: bool,
    /// The placement, when the part has a world transform.
    pub placement: Option<Placement>,
}

/// What the dossier reads of one entity.
pub struct EntityFacts {
    pub class: String,
    pub name: String,
    /// Editor furniture such as the AI camera, which is not content.
    pub is_camera: bool,
    pub part: Option<PartFacts>,
    /// A TextLabel's text.
    pub label: Option<String>,
    /// A TextButton's text.
    pub button: Option<String>,
    /// A Dialog's opening prompt and goodbye line.
    pub dialog: Option<(String, String)>,
    /// A Sound's sound id.
    pub sound: Option<String>,
    /// A Decal's texture.
    pub decal: Option<String>,
    /// A mesh source's path.
    pub mesh: Option<String>,
}

/// The tallies, as values.
pub struct Tally {
    pub entity_count: nat,
    pub part_count: nat,
    pub default_material: nat,
    pub default_color: nat,
    pub default_name: nat,
    pub transparent: nat,
    pub placement_samples: nat,
    pub text_string_count: nat,
    pub gui_count: nat,
    /// Distinct material keys, first seen first.
    pub materials: Seq<Seq<char>>,
    /// Distinct colours, first seen first.
    pub colors: Seq<Rgb>,
    /// Distinct class-and-placement keys, first seen first.
    pub placements: Seq<(Seq<char>, Placement)>,
    /// The class of every entity counted, in order.
    pub classes: Seq<Seq<char>>,
    pub strings: Seq<Seq<char>>,
    pub sounds: Seq<Seq<char>>,
    pub decals: Seq<Seq<char>>,
    pub meshes: Seq<Seq<char>>,
}

/// `s` with `x` added unless it already holds it.
pub open spec fn add_once<T>(s: Seq<T>, x: T) -> Seq<T> {
    if s.contains(x) { s } else { s.push(x) }
}

/// The tallies before any entity.
pub open spec fn empty_tally() -> Tally {
    Tally {
        entity_count: 0,
        part_count: 0,
        default_material: 0,
        default_color: 0,
        default_name: 0,
        transparent: 0,
        placement_samples: 0,
        text_string_count: 0,
        gui_count: 0,
        materials: Seq::empty(),
        colors: Seq::empty(),
        placements: Seq::empty(),
        classes: Seq::empty(),
        strings: Seq::empty(),
        sounds: Seq::empty(),
        decals: Seq::empty(),
        meshes: Seq::empty(),
    }
}

/// The key a part's material is counted under: its name when one was set,
/// else the preset's.
pub open spec fn material_key(p: PartFacts) -> Seq<char> {
    if p.material_name@.len() == 0 { p.material@ } else { p.material_name@ }
}

/// The tallies after a part of class `class`.
pub open spec fn part_step(t: Tally, class: Seq<char>, p: PartFacts) -> Tally {
    Tally {
        part_count: t.part_count + 1,
        default_material: t.default_material + if p.plastic && p.material_name@.len() == 0 { 1nat } else { 0nat },
        materials: add_once(t.materials, material_key(p)),
        default_color: t.default_color + if p.rgb == default_part_rgb() { 1nat } else { 0nat },
        colors: add_once(t.colors, p.rgb),
        transparent: t.transparent + if p.transparent { 1nat } else { 0nat },
        placements: match p.placement {
            Some(q) => add_once(t.placements, (class, q)),
            None => t.placements,
        },
        placement_samples: t.placement_samples + if p.placement is Some { 1nat } else { 0nat },
        ..t
    }
}

/// The tallies after the texts and assets of an entity.
pub open spec fn text_step(t: Tally, e: EntityFacts) -> Tally {
    let t1 = match e.label {
        Some(l) => Tally {
            gui_count: t.gui_count + 1,
            text_string_count: t.text_string_count + 1,
            strings: offered_string(t.strings, l@),
            ..t
        },
        None => t,
    };
    let t2 = match e.button {
        Some(b) => Tally {
            gui_count: t1.gui_count + 1,
            text_string_count: t1.text_string_count + 1,
            strings: offered_string(t1.strings, b@),
            ..t1
        },
        None => t1,
    };
    let t3 = match e.dialog {
        Some((prompt, goodbye)) => Tally {
            text_string_count: t2.text_string_count + 2,
            strings: offered_string(offered_string(t2.strings, prompt@), goodbye@),
            ..t2
        },
        None => t2,
    };
    Tally {
        sounds: match e.sound { Some(s) => offered_asset(t3.sounds, s@), None => t3.sounds },
        decals: match e.decal { Some(d) => offered_asset(t3.decals, d@), None => t3.decals },
        meshes: match e.mesh { Some(m) => offered_asset(t3.meshes, m@), None => t3.meshes },
        ..t3
    }
}

/// The tallies after one entity: cameras are skipped; every other entity
/// is counted with its class; a default name is counted, any other name is
/// offered to the visible strings; then its part, texts and assets.
pub open spec fn tally_step(t: Tally, e: EntityFacts) -> Tally {
    if e.is_camera {
        t
    } else {
        let t1 = Tally { entity_count: t.entity_count + 1, classes: t.classes.push(e.class@), ..t };
        let t2 = if spec_is_default_name(e.name@, e.class@) {
            Tally { default_name: t1.default_name + 1, ..t1 }
        } else {
            Tally { strings: offered_string(t1.strings, e.name@), ..t1 }
        };
        let t3 = match e.part {
            Some(p) => part_step(t2, e.class@, p),
            None => t2,
        };
        text_step(t3, e)
    }
}

/// The tallies after the first `n` entities.
pub open spec fn tally(es: Seq<EntityFacts>, n: int) -> Tally
    decreases n,
{
    if n <= 0 {
        empty_tally()
    } else {
        tally_step(tally(es, n - 1), es[n - 1])
    }
}

/// The tallies' invariant: no distinct list repeats itself, and every
/// count the digest divides by bounds what it divides, so each fraction the
/// digest reports lies between 0 and 1.
pub open spec fn tally_consistent(t: Tally) -> bool {
    &&& t.materials.no_duplicates()
    &&& t.colors.no_duplicates()
    &&& t.placements.no_duplicates()
    &&& t.part_count <= t.entity_count
    &&& t.default_name <= t.entity_count
    &&& t.default_material <= t.part_count
    &&& t.default_color <= t.part_count
    &&& t.transparent <= t.part_count
    &&& t.placement_samples <= t.part_count
    &&& t.materials.len() <= t.part_count
    &&& t.colors.len() <= t.part_count
    &&& t.placements.len() <= t.placement_samples
    &&& t.classes.len() == t.entity_count
}

proof fn lemma_add_once<T>(s: Seq<T>, x: T)
    requires
        s.no_duplicates(),
    ensures
        add_once(s, x).no_duplicates(),
        add_once(s, x).len() <= s.len() + 1,
        add_once(s, x).contains(x),
{
    if !s.contains(x) {
        assert(s.push(x)[s.len() as int] == x);
        assert forall|i: int, j: int| 0 <= i < j < s.push(x).len() implies s.push(x)[i] != s.push(x)[j] by {
            if j == s.len() {
                assert(s.push(x)[i] == s[i]);
            }
        }
    }
}

/// Every prefix of a scene's entities leaves the tallies consistent: the
/// distinct materials, colours and placements never repeat, and every
/// fraction of the digest (default materials, colours and transparency
/// among parts, default names among entities, repeated placements among
/// placed parts) is a count over a count at least as large.
pub proof fn law_tallies_stay_consistent(es: Seq<EntityFacts>, n: int)
    requires
        0 <= n <= es.len(),
    ensures
        tally_consistent(tally(es, n)),
    decreases n,
{
    if n > 0 {
        law_tallies_stay_consistent(es, n - 1);
        let t = tally(es, n - 1);
        let e = es[n - 1];
        if !e.is_camera {
            match e.part {
                Some(p) => {
                    lemma_add_once(t.materials, material_key(p));
                    lemma_add_once(t.colors, p.rgb);
                    match p.placement {
                        Some(q) => {
                            lemma_add_once(t.placements, (e.class@, q));
                        },
                        None => {},
                    }
                },
                None => {},
            }
        }
    }
}

/// The digest's tallies.
pub struct DossierTally {
    pub entity_count: usize,
    pub part_count: usize,
    pub default_material: usize,
    pub default_color: usize,
    pub default_name: usize,
    pub transparent: usize,
    pub placement_samples: usize,
    pub text_string_count: usize,
    pub gui_count: usize,
    pub materials: Vec<String>,
    pub colors: Vec<Rgb>,
    pub placements: Vec<(String, Placement)>,
    pub classes: Vec<String>,
    pub strings: Vec<String>,
    pub sounds: Vec<String>,
    pub decals: Vec<String>,
    pub meshes: Vec<String>,
}

/// The class-and-placement keys, as values.
pub open spec fn placement_keys(v: Seq<(String, Placement)>) -> Seq<(Seq<char>, Placement)> {
    v.map_values(|k: (String, Placement)| (k.0@, k.1))
}

impl DossierTally {
    /// The tallies, as values.
    pub open spec fn tally_view(&self) -> Tally {
        Tally {
            entity_count: self.entity_count as nat,
            part_count: self.part_count as nat,
            default_material: self.default_material as nat,
            default_color: self.default_color as nat,
            default_name: self.default_name as nat,
            transparent: self.transparent as nat,
            placement_samples: self.placement_samples as nat,
            text_string_count: self.text_string_count as nat,
            gui_count: self.gui_count as nat,
            materials: strs(self.materials@),
            colors: self.colors@,
            placements: placement_keys(self.placements@),
            classes: strs(self.classes@),
            strings: strs(self.strings@),
            sounds: strs(self.sounds@),
            decals: strs(self.decals@),
            meshes: strs(self.meshes@),
        }
    }

    /// Every count at most `bound`.
    pub open spec fn counts_within(&self, bound: nat) -> bool {
        &&& self.entity_count <= bound
        &&& self.part_count <= bound
        &&& self.default_material <= bound
        &&& self.default_color <= bound
        &&& self.default_name <= bound
        &&& self.transparent <= bound
        &&& self.placement_samples <= bound
        &&& self.text_string_count <= bound
        &&& self.gui_count <= bound
    }
}

fn add_string_once(v: &mut Vec<String>, s: &String)
    ensures
        strs(final(v)@) == add_once(strs(old(v)@), s@),
{
    let mut i: usize = 0;
    while i < v.len()
        invariant
            i <= v@.len(),
            forall|j: int| 0 <= j < i ==> (#[trigger] v@[j])@ != s@,
        decreases v.len() - i,
    {
        if str_eq(v[i].as_str(), s.as_str()) {
            proof {
                assert(strs(v@)[i as int] == s@);
            }
            return;
        }
        i = i + 1;
    }
    proof {
        assert(!strs(v@).contains(s@)) by {
            assert forall|j: int| 0 <= j < strs(v@).len() implies strs(v@)[j] != s@ by {
                assert(strs(v@)[j] == v@[j]@);
            }
        }
    }
    let ghost before = v@;
    v.push(s.clone());
    proof {
        assert(strs(v@) =~= strs(before).push(s@));
    }
}

fn add_color_once(v: &mut Vec<Rgb>, c: Rgb)
    ensures
        final(v)@ == add_once(old(v)@, c),
{
    let mut i: usize = 0;
    while i < v.len()
        invariant
            i <= v@.len(),
            forall|j: int| 0 <= j < i ==> v@[j] != c,
        decreases v.len() - i,
    {
        if v[i] == c {
            proof {
                assert(v@[i as int] == c);
            }
            return;
        }
        i = i + 1;
    }
    v.push(c);
}

fn add_placement_once(v: &mut Vec<(String, Placement)>, class: &String, q: Placement)
    ensures
        placement_keys(final(v)@) == add_once(placement_keys(old(v)@), (class@, q)),
{
    let mut i: usize = 0;
    while i < v.len()
        invariant
            i <= v@.len(),
            forall|j: int| 0 <= j < i ==> placement_keys(v@)[j] != (class@, q),
        decreases v.len() - i,
    {
        if v[i].1 == q && str_eq(v[i].0.as_str(), class.as_str()) {
            proof {
                assert(placement_keys(v@)[i as int] == (class@, q));
            }
            return;
        }
        proof {
            assert(placement_keys(v@)[i as int] == (v@[i as int].0@, v@[i as int].1));
        }
        i = i + 1;
    }
    proof {
        assert(!placement_keys(v@).contains((class@, q)));
    }
    let ghost before = v@;
    v.push((class.clone(), q));
    proof {
        assert(placement_keys(v@) =~= placement_keys(before).push((class@, q)));
    }
}

impl DossierTally {
    /// No entity tallied yet.
    pub fn new() -> (r: Self)
        ensures
            r.tally_view() == empty_tally(),
            r.counts_within(0),
    {
        let r = DossierTally {
            entity_count: 0,
            part_count: 0,
            default_material: 0,
            default_color: 0,
            default_name: 0,
            transparent: 0,
            placement_samples: 0,
            text_string_count: 0,
            gui_count: 0,
            materials: Vec::new(),
            colors: Vec::new(),
            placements: Vec::new(),
            classes: Vec::new(),
            strings: Vec::new(),
            sounds: Vec::new(),
            decals: Vec::new(),
            meshes: Vec::new(),
        };
        proof {
            assert(r.tally_view() =~= empty_tally()) by {
                assert(strs(r.materials@) =~= Seq::<Seq<char>>::empty());
                assert(placement_keys(r.placements@) =~= Seq::<(Seq<char>, Placement)>::empty());
            }
        }
        r
    }

    fn add_part(&mut self, class: &String, p: &PartFacts)
        requires
            old(self).counts_within((usize::MAX - 4) as nat),
        ensures
            final(self).tally_view() == part_step(old(self).tally_view(), class@, *p),
            final(self).entity_count == old(self).entity_count,
            final(self).default_name == old(self).default_name,
            final(self).text_string_count == old(self).text_string_count,
            final(self).gui_count == old(self).gui_count,
            final(self).part_count == old(self).part_count + 1,
            final(self).default_material <= old(self).default_material + 1,
            final(self).default_color <= old(self).default_color + 1,
            final(self).transparent <= old(self).transparent + 1,
            final(self).placement_samples <= old(self).placement_samples + 1,
    {
        self.part_count = self.part_count + 1;
        let preset = p.material_name.as_str().unicode_len() == 0;
        if p.plastic && preset {
            self.default_material = self.default_material + 1;
        }
        let key = if preset { p.material.clone() } else { p.material_name.clone() };
        add_string_once(&mut self.materials, &key);
        if p.rgb.r == 163 && p.rgb.g == 162 && p.rgb.b == 165 {
            self.default_color = self.default_color + 1;
        }
        add_color_once(&mut self.colors, p.rgb);
        if p.transparent {
            self.transparent = self.transparent + 1;
        }
        match p.placement {
            Some(q) => {
                add_placement_once(&mut self.placements, class, q);
                self.placement_samples = self.placement_samples + 1;
            },
            None => {},
        }
    }

    fn add_texts(&mut self, e: &EntityFacts)
        requires
            old(self).counts_within((usize::MAX - 4) as nat),
        ensures
            final(self).tally_view() == text_step(old(self).tally_view(), *e),
            final(self).entity_count == old(self).entity_count,
            final(self).part_count == old(self).part_count,
            final(self).default_material == old(self).default_material,
            final(self).default_color == old(self).default_color,
            final(self).default_name == old(self).default_name,
            final(self).transparent == old(self).transparent,
            final(self).placement_samples == old(self).placement_samples,
            final(self).text_string_count <= old(self).text_string_count + 4,
            final(self).gui_count <= old(self).gui_count + 2,
    {
        match &e.label {
            Some(l) => {
                self.gui_count = self.gui_count + 1;
                self.text_string_count = self.text_string_count + 1;
                push_string(&mut self.strings, l.as_str());
            },
            None => {},
        }
        match &e.button {
            Some(b) => {
                self.gui_count = self.gui_count + 1;
                self.text_string_count = self.text_string_count + 1;
                push_string(&mut self.strings, b.as_str());
            },
            None => {},
        }
        match &e.dialog {
            Some((prompt, goodbye)) => {
                self.text_string_count = self.text_string_count + 2;
                push_string(&mut self.strings, prompt.as_str());
                push_string(&mut self.strings, goodbye.as_str());
            },
            None => {},
        }
        match &e.sound {
            Some(s) => push_asset(&mut self.sounds, s.as_str()),
            None => {},
        }
        match &e.decal {
            Some(d) => push_asset(&mut self.decals, d.as_str()),
            None => {},
        }
        match &e.mesh {
            Some(m) => push_asset(&mut self.meshes, m.as_str()),
            None => {},
        }
    }

    /// Tally one entity; see [`tally_step`].
    pub fn add_entity(&mut self, e: &EntityFacts)
        requires
            old(self).counts_within((usize::MAX - 8) as nat),
        ensures
            final(self).tally_view() == tally_step(old(self).tally_view(), *e),
            final(self).counts_within(usize::MAX as nat),
            forall|b: nat| old(self).counts_within(b) ==> final(self).counts_within(b + 4),
    {
        if e.is_camera {
            return;
        }
        self.entity_count = self.entity_count + 1;
        let ghost before = self.classes@;
        self.classes.push(e.class.clone());
        proof {
            assert(strs(self.classes@) =~= strs(before).push(e.class@));
        }
        if is_default_name(e.name.as_str(), e.class.as_str()) {
            self.default_name = self.default_name + 1;
        } else {
            push_string(&mut self.strings, e.name.as_str());
        }
        match &e.part {
            Some(p) => self.add_part(&e.class, p),
            None => {},
        }
        self.add_texts(e);
    }
}

/// Tally every entity of a scene, in order.
pub fn digest_entities(entities: &Vec<EntityFacts>) -> (r: DossierTally)
    requires
        4 * entities@.len() + 8 <= usize::MAX,
    ensures
        r.tally_view() == tally(entities@, entities@.len() as int),
{
    let mut t = DossierTally::new();
    let mut i: usize = 0;
    while i < entities.len()
        invariant
            i <= entities@.len(),
            4 * entities@.len() + 8 <= usize::MAX,
            t.tally_view() == tally(entities@, i as int),
            t.counts_within(4 * i as nat),
        decreases entities.len() - i,
    {
        t.add_entity(&entities[i]);
        i = i + 1;
    }
    t
}

} // verus!
