//! The library of fixture templates: a built-in catalog and the templates
//! that users add, each under an identifier of its own.

use crate::dmx_types::{ChannelDef, ChannelType, FixtureMode, FixtureTemplate};
use crate::search::{first_match, is_first, lemma_first_match_none, lemma_first_match_some, none_match};
use vstd::prelude::*;

verus! {

/// `mode` has the name `name` and one channel for each function of
/// `kinds`, in order, each at the offset of its place and named after its
/// function.
pub open spec fn mode_holds(mode: FixtureMode, name: Seq<char>, kinds: Seq<ChannelType>) -> bool {
    &&& mode.name@ == name
    &&& mode.channels@.len() == kinds.len()
    &&& forall|i: int|
        0 <= i < kinds.len() ==> {
            &&& (#[trigger] mode.channels@[i]).channel_type == kinds[i]
            &&& mode.channels@[i].offset == i
            &&& mode.channels@[i].name@ == kinds[i].spec_name()
        }
}

/// Number of built-in templates.
pub open spec fn catalog_len() -> nat {
    11
}

/// Name of the built-in template at place `i`.
pub open spec fn catalog_name(i: int) -> Seq<char> {
    if i == 0 {
        "Generic Dimmer"@
    } else if i == 1 {
        "Generic RGB Par"@
    } else if i == 2 {
        "Generic RGBW Par"@
    } else if i == 3 {
        "Generic RGBA Par"@
    } else if i == 4 {
        "Generic RGBWAU Par"@
    } else if i == 5 {
        "Generic Moving Head"@
    } else if i == 6 {
        "Martin MAC 250"@
    } else if i == 7 {
        "Chauvet DJ SlimPAR Q12"@
    } else if i == 8 {
        "Generic LED Bar"@
    } else if i == 9 {
        "Generic Strobe"@
    } else {
        "Generic Blinder"@
    }
}

/// Manufacturer of the built-in template at place `i`.
pub open spec fn catalog_maker(i: int) -> Seq<char> {
    if i == 6 {
        "Martin"@
    } else if i == 7 {
        "Chauvet"@
    } else {
        "Generic"@
    }
}

/// The modes of the built-in template at place `i`: for each its name and
/// the functions of its channels in order.
pub open spec fn catalog_modes(i: int) -> Seq<(Seq<char>, Seq<ChannelType>)> {
    if i == 0 {
        seq![("1ch"@, seq![ChannelType::Intensity])]
    } else if i == 1 {
        seq![
            (
                "4ch (Dimmer)"@,
                seq![ChannelType::Intensity, ChannelType::Red, ChannelType::Green, ChannelType::Blue],
            ),
            ("3ch (RGB)"@, seq![ChannelType::Red, ChannelType::Green, ChannelType::Blue]),
        ]
    } else if i == 2 {
        seq![
            (
                "5ch (Dimmer)"@,
                seq![
                    ChannelType::Intensity,
                    ChannelType::Red,
                    ChannelType::Green,
                    ChannelType::Blue,
                    ChannelType::White,
                ],
            ),
            (
                "4ch (RGBW)"@,
                seq![ChannelType::Red, ChannelType::Green, ChannelType::Blue, ChannelType::White],
            ),
        ]
    } else if i == 3 {
        seq![
            (
                "5ch (Dimmer)"@,
                seq![
                    ChannelType::Intensity,
                    ChannelType::Red,
                    ChannelType::Green,
                    ChannelType::Blue,
                    ChannelType::Amber,
                ],
            ),
            (
                "4ch (RGBA)"@,
                seq![ChannelType::Red, ChannelType::Green, ChannelType::Blue, ChannelType::Amber],
            ),
        ]
    } else if i == 4 {
        seq![
            (
                "7ch (Dimmer)"@,
                seq![
                    ChannelType::Intensity,
                    ChannelType::Red,
                    ChannelType::Green,
                    ChannelType::Blue,
                    ChannelType::White,
                    ChannelType::Amber,
                    ChannelType::UV,
                ],
            ),
            (
                "6ch"@,
                seq![
                    ChannelType::Red,
                    ChannelType::Green,
                    ChannelType::Blue,
                    ChannelType::White,
                    ChannelType::Amber,
                    ChannelType::UV,
                ],
            ),
        ]
    } else if i == 5 {
        seq![
            (
                "17ch"@,
                seq![
                    ChannelType::Intensity,
                    ChannelType::Pan,
                    ChannelType::PanFine,
                    ChannelType::Tilt,
                    ChannelType::TiltFine,
                    ChannelType::Speed,
                    ChannelType::ColorWheel,
                    ChannelType::GoboWheel,
                    ChannelType::GoboRotation,
                    ChannelType::Shutter,
                    ChannelType::Focus,
                    ChannelType::Zoom,
                    ChannelType::Prism,
                    ChannelType::Control,
                    ChannelType::Red,
                    ChannelType::Green,
                    ChannelType::Blue,
                ],
            ),
            (
                "12ch"@,
                seq![
                    ChannelType::Pan,
                    ChannelType::PanFine,
                    ChannelType::Tilt,
                    ChannelType::TiltFine,
                    ChannelType::Speed,
                    ChannelType::ColorWheel,
                    ChannelType::GoboWheel,
                    ChannelType::Shutter,
                    ChannelType::Intensity,
                    ChannelType::Focus,
                    ChannelType::Zoom,
                    ChannelType::Control,
                ],
            ),
            (
                "8ch"@,
                seq![
                    ChannelType::Pan,
                    ChannelType::Tilt,
                    ChannelType::Speed,
                    ChannelType::ColorWheel,
                    ChannelType::GoboWheel,
                    ChannelType::Shutter,
                    ChannelType::Intensity,
                    ChannelType::Control,
                ],
            ),
        ]
    } else if i == 6 {
        seq![
            (
                "22ch"@,
                seq![
                    ChannelType::Pan,
                    ChannelType::PanFine,
                    ChannelType::Tilt,
                    ChannelType::TiltFine,
                    ChannelType::Speed,
                    ChannelType::ColorWheel,
                    ChannelType::GoboWheel,
                    ChannelType::GoboRotation,
                    ChannelType::GoboWheel2,
                    ChannelType::Shutter,
                    ChannelType::Intensity,
                    ChannelType::Focus,
                    ChannelType::Zoom,
                    ChannelType::Prism,
                    ChannelType::Frost,
                    ChannelType::Control,
                    ChannelType::Red,
                    ChannelType::Green,
                    ChannelType::Blue,
                    ChannelType::White,
                    ChannelType::Amber,
                    ChannelType::UV,
                ],
            ),
        ]
    } else if i == 7 {
        seq![
            (
                "6ch"@,
                seq![
                    ChannelType::Red,
                    ChannelType::Green,
                    ChannelType::Blue,
                    ChannelType::White,
                    ChannelType::Amber,
                    ChannelType::Strobe,
                ],
            ),
            (
                "10ch"@,
                seq![
                    ChannelType::Red,
                    ChannelType::Green,
                    ChannelType::Blue,
                    ChannelType::White,
                    ChannelType::Amber,
                    ChannelType::Strobe,
                    ChannelType::ColorWheel,
                    ChannelType::Zoom,
                    ChannelType::Focus,
                    ChannelType::Control,
                ],
            ),
        ]
    } else if i == 8 {
        seq![
            (
                "4x RGB"@,
                seq![ChannelType::Red, ChannelType::Green, ChannelType::Blue, ChannelType::Intensity],
            ),
            (
                "8x RGB"@,
                seq![
                    ChannelType::Red,
                    ChannelType::Green,
                    ChannelType::Blue,
                    ChannelType::Intensity,
                    ChannelType::Red,
                    ChannelType::Green,
                    ChannelType::Blue,
                    ChannelType::Intensity,
                ],
            ),
        ]
    } else if i == 9 {
        seq![("2ch"@, seq![ChannelType::Strobe, ChannelType::Intensity])]
    } else {
        seq![("1ch"@, seq![ChannelType::Intensity])]
    }
}

/// `t` is the built-in template of place `i`, under the identifier `id`.
pub open spec fn template_holds(t: FixtureTemplate, i: int, id: u32) -> bool {
    &&& t.id == id
    &&& t.name@ == catalog_name(i)
    &&& t.manufacturer@ == catalog_maker(i)
    &&& !t.is_user_defined
    &&& t.modes@.len() == catalog_modes(i).len()
    &&& forall|m: int|
        0 <= m < catalog_modes(i).len() ==> mode_holds(
            #[trigger] t.modes@[m],
            catalog_modes(i)[m].0,
            catalog_modes(i)[m].1,
        )
}

/// A mode whose channels have the functions of `kinds`, one after the
/// other from offset 0.
pub fn sequential_mode(name: &str, kinds: Vec<ChannelType>) -> (mode: FixtureMode)
    requires
        kinds@.len() <= 256,
    ensures
        mode_holds(mode, name@, kinds@),
{
    let mut channels: Vec<ChannelDef> = Vec::new();
    let mut i: usize = 0;
    while i < kinds.len()
        invariant
            i <= kinds@.len() <= 256,
            channels@.len() == i,
            forall|j: int|
                0 <= j < i ==> {
                    &&& (#[trigger] channels@[j]).channel_type == kinds@[j]
                    &&& channels@[j].offset == j
                    &&& channels@[j].name@ == kinds@[j].spec_name()
                },
        decreases kinds@.len() - i,
    {
        channels.push(ChannelDef::new(kinds[i], i as u8));
        i = i + 1;
    }
    FixtureMode::new(name, channels)
}

fn one_mode(id: u32, name: &str, maker: &str, mode: FixtureMode) -> (t: FixtureTemplate)
    ensures
        t.id == id,
        t.name@ == name@,
        t.manufacturer@ == maker@,
        !t.is_user_defined,
        t.modes@ == seq![mode],
{
    let mut t = FixtureTemplate::new(id, name, maker);
    t.add_mode(mode);
    assert(t.modes@ =~= seq![mode]);
    t
}

fn two_modes(id: u32, name: &str, maker: &str, first: FixtureMode, second: FixtureMode) -> (t:
    FixtureTemplate)
    ensures
        t.id == id,
        t.name@ == name@,
        t.manufacturer@ == maker@,
        !t.is_user_defined,
        t.modes@ == seq![first, second],
{
    let mut t = FixtureTemplate::new(id, name, maker);
    t.add_mode(first);
    t.add_mode(second);
    assert(t.modes@ =~= seq![first, second]);
    t
}

fn moving_head(id: u32) -> (t: FixtureTemplate)
    ensures
        template_holds(t, 5, id),
{
    let wide = sequential_mode(
        "17ch",
        vec![
            ChannelType::Intensity,
            ChannelType::Pan,
            ChannelType::PanFine,
            ChannelType::Tilt,
            ChannelType::TiltFine,
            ChannelType::Speed,
            ChannelType::ColorWheel,
            ChannelType::GoboWheel,
            ChannelType::GoboRotation,
            ChannelType::Shutter,
            ChannelType::Focus,
            ChannelType::Zoom,
            ChannelType::Prism,
            ChannelType::Control,
            ChannelType::Red,
            ChannelType::Green,
            ChannelType::Blue,
        ],
    );
    let middle = sequential_mode(
        "12ch",
        vec![
            ChannelType::Pan,
            ChannelType::PanFine,
            ChannelType::Tilt,
            ChannelType::TiltFine,
            ChannelType::Speed,
            ChannelType::ColorWheel,
            ChannelType::GoboWheel,
            ChannelType::Shutter,
            ChannelType::Intensity,
            ChannelType::Focus,
            ChannelType::Zoom,
            ChannelType::Control,
        ],
    );
    let narrow = sequential_mode(
        "8ch",
        vec![
            ChannelType::Pan,
            ChannelType::Tilt,
            ChannelType::Speed,
            ChannelType::ColorWheel,
            ChannelType::GoboWheel,
            ChannelType::Shutter,
            ChannelType::Intensity,
            ChannelType::Control,
        ],
    );
    let mut t = FixtureTemplate::new(id, "Generic Moving Head", "Generic");
    t.add_mode(wide);
    t.add_mode(middle);
    t.add_mode(narrow);
    assert(t.modes@ =~= seq![wide, middle, narrow]);
    t
}

fn mac_250(id: u32) -> (t: FixtureTemplate)
    ensures
        template_holds(t, 6, id),
{
    one_mode(
        id,
        "Martin MAC 250",
        "Martin",
        sequential_mode(
            "22ch",
            vec![
                ChannelType::Pan,
                ChannelType::PanFine,
                ChannelType::Tilt,
                ChannelType::TiltFine,
                ChannelType::Speed,
                ChannelType::ColorWheel,
                ChannelType::GoboWheel,
                ChannelType::GoboRotation,
                ChannelType::GoboWheel2,
                ChannelType::Shutter,
                ChannelType::Intensity,
                ChannelType::Focus,
                ChannelType::Zoom,
                ChannelType::Prism,
                ChannelType::Frost,
                ChannelType::Control,
                ChannelType::Red,
                ChannelType::Green,
                ChannelType::Blue,
                ChannelType::White,
                ChannelType::Amber,
                ChannelType::UV,
            ],
        ),
    )
}

fn slim_par(id: u32) -> (t: FixtureTemplate)
    ensures
        template_holds(t, 7, id),
{
    two_modes(
        id,
        "Chauvet DJ SlimPAR Q12",
        "Chauvet",
        sequential_mode(
            "6ch",
            vec![
                ChannelType::Red,
                ChannelType::Green,
                ChannelType::Blue,
                ChannelType::White,
                ChannelType::Amber,
                ChannelType::Strobe,
            ],
        ),
        sequential_mode(
            "10ch",
            vec![
                ChannelType::Red,
                ChannelType::Green,
                ChannelType::Blue,
                ChannelType::White,
                ChannelType::Amber,
                ChannelType::Strobe,
                ChannelType::ColorWheel,
                ChannelType::Zoom,
                ChannelType::Focus,
                ChannelType::Control,
            ],
        ),
    )
}

fn par_with(id: u32, place: usize) -> (t: FixtureTemplate)
    requires
        1 <= place <= 4,
    ensures
        template_holds(t, place as int, id),
{
    if place == 1 {
        two_modes(
            id,
            "Generic RGB Par",
            "Generic",
            sequential_mode(
                "4ch (Dimmer)",
                vec![ChannelType::Intensity, ChannelType::Red, ChannelType::Green, ChannelType::Blue],
            ),
            sequential_mode(
                "3ch (RGB)",
                vec![ChannelType::Red, ChannelType::Green, ChannelType::Blue],
            ),
        )
    } else if place == 2 {
        two_modes(
            id,
            "Generic RGBW Par",
            "Generic",
            sequential_mode(
                "5ch (Dimmer)",
                vec![
                    ChannelType::Intensity,
                    ChannelType::Red,
                    ChannelType::Green,
                    ChannelType::Blue,
                    ChannelType::White,
                ],
            ),
            sequential_mode(
                "4ch (RGBW)",
                vec![ChannelType::Red, ChannelType::Green, ChannelType::Blue, ChannelType::White],
            ),
        )
    } else if place == 3 {
        two_modes(
            id,
            "Generic RGBA Par",
            "Generic",
            sequential_mode(
                "5ch (Dimmer)",
                vec![
                    ChannelType::Intensity,
                    ChannelType::Red,
                    ChannelType::Green,
                    ChannelType::Blue,
                    ChannelType::Amber,
                ],
            ),
            sequential_mode(
                "4ch (RGBA)",
                vec![ChannelType::Red, ChannelType::Green, ChannelType::Blue, ChannelType::Amber],
            ),
        )
    } else {
        two_modes(
            id,
            "Generic RGBWAU Par",
            "Generic",
            sequential_mode(
                "7ch (Dimmer)",
                vec![
                    ChannelType::Intensity,
                    ChannelType::Red,
                    ChannelType::Green,
                    ChannelType::Blue,
                    ChannelType::White,
                    ChannelType::Amber,
                    ChannelType::UV,
                ],
            ),
            sequential_mode(
                "6ch",
                vec![
                    ChannelType::Red,
                    ChannelType::Green,
                    ChannelType::Blue,
                    ChannelType::White,
                    ChannelType::Amber,
                    ChannelType::UV,
                ],
            ),
        )
    }
}

fn led_bar(id: u32) -> (t: FixtureTemplate)
    ensures
        template_holds(t, 8, id),
{
    two_modes(
        id,
        "Generic LED Bar",
        "Generic",
        sequential_mode(
            "4x RGB",
            vec![ChannelType::Red, ChannelType::Green, ChannelType::Blue, ChannelType::Intensity],
        ),
        sequential_mode(
            "8x RGB",
            vec![
                ChannelType::Red,
                ChannelType::Green,
                ChannelType::Blue,
                ChannelType::Intensity,
                ChannelType::Red,
                ChannelType::Green,
                ChannelType::Blue,
                ChannelType::Intensity,
            ],
        ),
    )
}

/// The built-in template of place `place` under the identifier `id`.
pub fn catalog_entry(place: usize, id: u32) -> (t: FixtureTemplate)
    requires
        place < catalog_len(),
    ensures
        template_holds(t, place as int, id),
{
    if place == 0 {
        one_mode(
            id,
            "Generic Dimmer",
            "Generic",
            sequential_mode("1ch", vec![ChannelType::Intensity]),
        )
    } else if place <= 4 {
        par_with(id, place)
    } else if place == 5 {
        moving_head(id)
    } else if place == 6 {
        mac_250(id)
    } else if place == 7 {
        slim_par(id)
    } else if place == 8 {
        led_bar(id)
    } else if place == 9 {
        one_mode(
            id,
            "Generic Strobe",
            "Generic",
            sequential_mode("2ch", vec![ChannelType::Strobe, ChannelType::Intensity]),
        )
    } else {
        one_mode(
            id,
            "Generic Blinder",
            "Generic",
            sequential_mode("1ch", vec![ChannelType::Intensity]),
        )
    }
}

/// The templates with the identifier `id`.
pub open spec fn template_with(id: u32) -> spec_fn(FixtureTemplate) -> bool {
    |t: FixtureTemplate| t.id == id
}

/// All templates at hand, built-in and user-defined.
#[derive(Clone, Debug)]
pub struct FixtureTemplateLibrary {
    pub templates: Vec<FixtureTemplate>,
    /// The identifier that the next added template gets.
    pub next_id: u32,
}

impl Default for FixtureTemplateLibrary {
    fn default() -> (lib: FixtureTemplateLibrary)
        ensures
            lib.templates@ == Seq::<FixtureTemplate>::empty(),
            lib.next_id == 0,
    {
        FixtureTemplateLibrary { templates: Vec::new(), next_id: 0 }
    }
}

impl FixtureTemplateLibrary {
    /// Every template's identifier lies below the next one to give out.
    pub open spec fn wf(&self) -> bool {
        forall|i: int| 0 <= i < self.templates@.len() ==> (#[trigger] self.templates@[i]).id < self.next_id
    }

    /// The templates from place `from` on are the built-in catalog, under
    /// the identifiers `first_id`, `first_id + 1` and so on.
    pub open spec fn holds_catalog(&self, from: int, first_id: int) -> bool {
        &&& self.templates@.len() == from + catalog_len()
        &&& forall|i: int|
            0 <= i < catalog_len() ==> template_holds(
                #[trigger] self.templates@[from + i],
                i,
                (first_id + i) as u32,
            )
    }

    /// A library that holds the built-in catalog under the identifiers 1
    /// to 11.
    pub fn new() -> (lib: FixtureTemplateLibrary)
        ensures
            lib.holds_catalog(0, 1),
            lib.next_id == 12,
            lib.wf(),
    {
        let mut library = FixtureTemplateLibrary { templates: Vec::new(), next_id: 1 };
        library.load_predefined_templates();
        library
    }

    /// Adds `template` under a fresh identifier, marked as user-defined,
    /// and returns that identifier.
    pub fn add_user_template(&mut self, template: FixtureTemplate) -> (id: u32)
        requires
            old(self).next_id < u32::MAX,
        ensures
            id == old(self).next_id,
            final(self).next_id == id + 1,
            final(self).templates@ == old(self).templates@.push(
                FixtureTemplate { id, is_user_defined: true, ..template },
            ),
            old(self).wf() ==> final(self).wf(),
            old(self).wf() ==> none_match(
                old(self).templates@,
                template_with(id),
            ),
    {
        let id = self.next_id;
        self.next_id = self.next_id + 1;
        let mut template = template;
        template.id = id;
        template.is_user_defined = true;
        self.templates.push(template);
        id
    }

    /// The first template with the identifier `id`.
    pub fn get_template(&self, id: u32) -> (t: Option<&FixtureTemplate>)
        ensures
            match first_match(self.templates@, template_with(id)) {
                Some(i) => t == Some(&self.templates@[i]),
                None => t is None,
            },
    {
        let ghost p = template_with(id);
        let mut i: usize = 0;
        while i < self.templates.len()
            invariant
                i <= self.templates@.len(),
                p == template_with(id),
                forall|j: int| 0 <= j < i ==> !p(#[trigger] self.templates@[j]),
            decreases self.templates@.len() - i,
        {
            if self.templates[i].id == id {
                proof {
                    assert(is_first(self.templates@, p, i as int));
                    lemma_first_match_some(self.templates@, p, i as int);
                }
                return Some(&self.templates[i]);
            }
            i = i + 1;
        }
        proof {
            lemma_first_match_none(self.templates@, p);
        }
        None
    }

    /// Where the first template with the identifier `id` lies.
    pub fn template_index(&self, id: u32) -> (r: Option<usize>)
        ensures
            match r {
                Some(i) => first_match(self.templates@, template_with(id)) == Some(
                    i as int,
                ),
                None => first_match(self.templates@, template_with(id)) is None,
            },
    {
        let ghost p = template_with(id);
        let mut i: usize = 0;
        while i < self.templates.len()
            invariant
                i <= self.templates@.len(),
                p == template_with(id),
                forall|j: int| 0 <= j < i ==> !p(#[trigger] self.templates@[j]),
            decreases self.templates@.len() - i,
        {
            if self.templates[i].id == id {
                proof {
                    assert(is_first(self.templates@, p, i as int));
                    lemma_first_match_some(self.templates@, p, i as int);
                }
                return Some(i);
            }
            i = i + 1;
        }
        proof {
            lemma_first_match_none(self.templates@, p);
        }
        None
    }

    /// The first template with the identifier `id`, to be changed in place.
    pub fn get_template_mut(&mut self, id: u32) -> (t: Option<&mut FixtureTemplate>)
        ensures
            match first_match(old(self).templates@, template_with(id)) {
                Some(i) => {
                    &&& t is Some
                    &&& *t->0 == old(self).templates@[i]
                    &&& final(self).templates@ == old(self).templates@.update(i, *final(t->0))
                    &&& final(self).next_id == old(self).next_id
                },
                None => t is None && *final(self) == *old(self),
            },
    {
        match self.template_index(id) {
            Some(i) => Some(&mut self.templates[i]),
            None => None,
        }
    }

    /// The templates of `s` that are user-defined (`user`) or built-in.
    pub open spec fn of_kind(s: Seq<FixtureTemplate>, user: bool) -> Seq<FixtureTemplate> {
        s.filter(|t: FixtureTemplate| t.is_user_defined == user)
    }

    fn collect_kind(&self, user: bool) -> (r: Vec<&FixtureTemplate>)
        ensures
            r@.len() == Self::of_kind(self.templates@, user).len(),
            forall|i: int|
                0 <= i < r@.len() ==> *(#[trigger] r@[i]) == Self::of_kind(self.templates@, user)[i],
    {
        let ghost p = |t: FixtureTemplate| t.is_user_defined == user;
        let mut r: Vec<&FixtureTemplate> = Vec::new();
        let mut i: usize = 0;
        proof {
            reveal(Seq::filter);
            assert(self.templates@.take(0).filter(p) =~= Seq::<FixtureTemplate>::empty());
        }
        while i < self.templates.len()
            invariant
                i <= self.templates@.len(),
                p == |t: FixtureTemplate| t.is_user_defined == user,
                r@.len() == self.templates@.take(i as int).filter(p).len(),
                forall|j: int|
                    0 <= j < r@.len() ==> *(#[trigger] r@[j]) == self.templates@.take(
                        i as int,
                    ).filter(p)[j],
            decreases self.templates@.len() - i,
        {
            proof {
                reveal(Seq::filter);
                assert(self.templates@.take(i + 1).drop_last() =~= self.templates@.take(i as int));
            }
            if self.templates[i].is_user_defined == user {
                r.push(&self.templates[i]);
            }
            i = i + 1;
        }
        assert(self.templates@.take(i as int) =~= self.templates@);
        r
    }

    /// The built-in templates, in the library's order.
    pub fn predefined_templates(&self) -> (r: Vec<&FixtureTemplate>)
        ensures
            r@.len() == Self::of_kind(self.templates@, false).len(),
            forall|i: int|
                0 <= i < r@.len() ==> *(#[trigger] r@[i]) == Self::of_kind(self.templates@, false)[i],
    {
        self.collect_kind(false)
    }

    /// The user-defined templates, in the library's order.
    pub fn user_templates(&self) -> (r: Vec<&FixtureTemplate>)
        ensures
            r@.len() == Self::of_kind(self.templates@, true).len(),
            forall|i: int|
                0 <= i < r@.len() ==> *(#[trigger] r@[i]) == Self::of_kind(self.templates@, true)[i],
    {
        self.collect_kind(true)
    }

    /// Appends the built-in catalog, giving out one identifier after the
    /// other from `next_id`.
    pub fn load_predefined_templates(&mut self)
        requires
            old(self).next_id + catalog_len() <= u32::MAX,
        ensures
            final(self).holds_catalog(old(self).templates@.len() as int, old(self).next_id as int),
            final(self).templates@.take(old(self).templates@.len() as int) == old(self).templates@,
            final(self).next_id == old(self).next_id + catalog_len(),
            old(self).wf() ==> final(self).wf(),
    {
        let ghost before = self.templates@;
        let ghost first = self.next_id;
        let mut place: usize = 0;
        while place < 11
            invariant
                place <= 11,
                first + 11 <= u32::MAX,
                self.next_id == first + place,
                self.templates@.len() == before.len() + place,
                self.templates@.take(before.len() as int) == before,
                forall|i: int|
                    0 <= i < place ==> template_holds(
                        #[trigger] self.templates@[before.len() + i],
                        i,
                        (first + i) as u32,
                    ),
                old(self).wf() ==> self.wf(),
                before == old(self).templates@,
                first == old(self).next_id,
            decreases 11 - place,
        {
            let entry = catalog_entry(place, self.next_id);
            let ghost prev = self.templates@;
            self.templates.push(entry);
            self.next_id = self.next_id + 1;
            proof {
                assert(self.templates@.take(before.len() as int) =~= prev.take(before.len() as int));
                assert forall|i: int| 0 <= i < place + 1 implies template_holds(
                    #[trigger] self.templates@[before.len() + i],
                    i,
                    (first + i) as u32,
                ) by {
                    if i < place {
                        assert(self.templates@[before.len() + i] == prev[before.len() + i]);
                    }
                }
                if old(self).wf() {
                    assert forall|i: int| 0 <= i < self.templates@.len() implies (
                    #[trigger] self.templates@[i]).id < self.next_id by {
                        if i < prev.len() {
                            assert(self.templates@[i] == prev[i]);
                        }
                    }
                }
            }
            place = place + 1;
        }
    }
}

} // verus!
