//! One captured output line: its message bytes, origin and attached tags.
//! Entries live in an append-only sequence indexed by position.

use vstd::prelude::*;

use crate::bytes::{fmt_usize, fmt_usize_spec};
use crate::location::LocationModel;
use crate::marker::MarkerRef;
use crate::origin::Origin;
use crate::tag::{first_marker_model, lemma_first_marker_idx_is, lemma_first_marker_idx_none,
    lemma_tag_index_is, lemma_tag_index_none, set_tag_spec, tag_index, BuildTag, BuildTagKind,
    TagModel};

verus! {

/// One output line: creation tick, message bytes, origin, and the tags the
/// preparer attached.
#[derive(Clone, Debug, PartialEq)]
pub struct BuildEntry {
    pub created_at: u64,
    pub message: Vec<u8>,
    pub origin: Origin,
    pub tags: Vec<BuildTag>,
}

/// Mathematical view of a [`BuildEntry`].
pub ghost struct EntryModel {
    pub created_at: u64,
    pub message: Seq<u8>,
    pub origin: Origin,
    pub tags: Seq<TagModel>,
}

impl View for BuildEntry {
    type V = EntryModel;

    open spec fn view(&self) -> EntryModel {
        EntryModel {
            created_at: self.created_at,
            message: self.message@,
            origin: self.origin,
            tags: self.tags@.map_values(|t: BuildTag| t@),
        }
    }
}

/// The views of a sequence of entries.
pub open spec fn entries_view(es: Seq<BuildEntry>) -> Seq<EntryModel> {
    es.map_values(|e: BuildEntry| e@)
}

/// The text `path[:line][:column]` of a location.
pub open spec fn location_str_spec(l: LocationModel) -> Seq<u8> {
    l.path + (match l.line {
        Some(n) => seq![58u8] + fmt_usize_spec(n as int),
        None => Seq::<u8>::empty(),
    }) + (match l.column {
        Some(c) => seq![58u8] + fmt_usize_spec(c as int),
        None => Seq::<u8>::empty(),
    })
}

impl BuildEntry {
    /// A fresh entry with no tags, created at tick zero.
    pub fn new(msg: Vec<u8>, orig: Origin) -> (r: Self)
        ensures
            r@ == (EntryModel {
                created_at: 0,
                message: msg@,
                origin: orig,
                tags: Seq::<TagModel>::empty(),
            }),
    {
        let r = BuildEntry { created_at: 0, message: msg, origin: orig, tags: Vec::new() };
        proof {
            assert(r@.tags =~= Seq::<TagModel>::empty());
        }
        r
    }

    /// The entry with the given tags appended.
    pub fn with_tags(self, tags: Vec<BuildTag>) -> (r: Self)
        ensures
            r@ == (EntryModel { tags: self@.tags + tags@.map_values(|t: BuildTag| t@), ..self@ }),
    {
        let ghost before = self@;
        let ghost added = tags@.map_values(|t: BuildTag| t@);
        let mut s = self;
        let mut tags = tags;
        s.tags.append(&mut tags);
        proof {
            assert(s@.tags =~= before.tags + added);
        }
        s
    }

    /// The entry with its creation tick replaced.
    pub fn with_created_at(self, at: u64) -> (r: Self)
        ensures
            r@ == (EntryModel { created_at: at, ..self@ }),
    {
        BuildEntry { created_at: at, ..self }
    }

    /// The tick this entry was created at.
    pub fn created_at(&self) -> (r: u64)
        ensures
            r == self@.created_at,
    {
        self.created_at
    }

    /// The line's content.
    pub fn message(&self) -> (r: &Vec<u8>)
        ensures
            r == &self.message,
    {
        &self.message
    }

    /// The stream this entry was captured from.
    pub fn origin(&self) -> (r: Origin)
        ensures
            r == self@.origin,
    {
        self.origin
    }

    /// Whether an error tag is attached.
    pub fn is_error(&self) -> (r: bool)
        ensures
            r == (tag_index(self@.tags, BuildTagKind::Error) >= 0),
    {
        self.has_tag(BuildTagKind::Error)
    }

    /// Whether a warning tag is attached.
    pub fn is_warning(&self) -> (r: bool)
        ensures
            r == (tag_index(self@.tags, BuildTagKind::Warning) >= 0),
    {
        self.has_tag(BuildTagKind::Warning)
    }

    /// Whether a note tag is attached.
    pub fn is_note(&self) -> (r: bool)
        ensures
            r == (tag_index(self@.tags, BuildTagKind::Note) >= 0),
    {
        self.has_tag(BuildTagKind::Note)
    }

    /// Attach a tag: the first tag of the same kind is overwritten, or the
    /// tag is appended.
    pub fn set_tag(&mut self, t: BuildTag)
        ensures
            final(self)@ == (EntryModel {
                tags: set_tag_spec(old(self)@.tags, t@),
                ..old(self)@
            }),
    {
        let ghost t0 = self@.tags;
        let ghost tm = t@;
        let n = self.tags.len();
        let mut i: usize = 0;
        while i < n
            invariant
                0 <= i <= n == self.tags@.len(),
                *self == *old(self),
                forall|j: int| 0 <= j < i ==> self@.tags[j].kind != tm.kind,
                tm == t@,
                t0 == self@.tags,
            decreases n - i,
        {
            if self.tags[i].kind == t.kind {
                proof {
                    lemma_tag_index_is(t0, tm.kind, i as int);
                }
                self.tags.set(i, t);
                proof {
                    assert(self@.tags =~= t0.update(i as int, tm));
                }
                return ;
            }
            i = i + 1;
        }
        proof {
            lemma_tag_index_none(t0, tm.kind);
        }
        self.tags.push(t);
        proof {
            assert(self@.tags =~= t0.push(tm));
        }
    }

    /// The first tag of kind `k`, mutably.
    pub fn tag_mut(&mut self, k: BuildTagKind) -> (r: Option<&mut BuildTag>)
        ensures
            match r {
                Some(p) => {
                    let ti = tag_index(old(self)@.tags, k);
                    ti >= 0 && *p == old(self).tags@[ti]
                        && final(self).tags@ == old(self).tags@.update(ti, *final(p))
                        && final(self).message == old(self).message
                        && final(self).origin == old(self).origin
                        && final(self).created_at == old(self).created_at
                },
                None => tag_index(old(self)@.tags, k) == -1 && *final(self) == *old(self),
            },
    {
        let ghost t0 = self@.tags;
        let n = self.tags.len();
        let mut i: usize = 0;
        while i < n
            invariant
                0 <= i <= n == self.tags@.len(),
                *self == *old(self),
                t0 == self@.tags,
                forall|j: int| 0 <= j < i ==> self@.tags[j].kind != k,
            decreases n - i,
        {
            if self.tags[i].kind == k {
                proof {
                    assert(self@.tags[i as int] == self.tags@[i as int]@);
                    lemma_tag_index_is(t0, k, i as int);
                }
                return Some(&mut self.tags[i]);
            }
            i = i + 1;
        }
        proof {
            lemma_tag_index_none(t0, k);
        }
        None
    }

    /// The first tag of kind `k`.
    pub fn tag(&self, k: BuildTagKind) -> (r: Option<&BuildTag>)
        ensures
            match r {
                Some(tg) => tag_index(self@.tags, k) >= 0 && tg@ == self@.tags[tag_index(
                    self@.tags,
                    k,
                )],
                None => tag_index(self@.tags, k) == -1,
            },
    {
        let n = self.tags.len();
        let mut i: usize = 0;
        while i < n
            invariant
                0 <= i <= n == self.tags@.len(),
                forall|j: int| 0 <= j < i ==> self@.tags[j].kind != k,
            decreases n - i,
        {
            if self.tags[i].kind == k {
                proof {
                    lemma_tag_index_is(self@.tags, k, i as int);
                }
                return Some(&self.tags[i]);
            }
            i = i + 1;
        }
        proof {
            lemma_tag_index_none(self@.tags, k);
        }
        None
    }

    /// The first marker-carrying tag's marker, if any.
    pub fn first_marker(&self) -> (r: Option<&MarkerRef>)
        ensures
            match r {
                Some(m) => first_marker_model(self@.tags) == Some(m@),
                None => first_marker_model(self@.tags) is None,
            },
    {
        let n = self.tags.len();
        let mut i: usize = 0;
        while i < n
            invariant
                0 <= i <= n == self.tags@.len(),
                forall|j: int| 0 <= j < i ==> self@.tags[j].marker is None,
            decreases n - i,
        {
            match &self.tags[i].marker {
                Some(m) => {
                    proof {
                        lemma_first_marker_idx_is(self@.tags, i as int);
                    }
                    return Some(m);
                },
                None => {},
            }
            i = i + 1;
        }
        proof {
            lemma_first_marker_idx_none(self@.tags);
        }
        None
    }

    /// All tags.
    pub fn tags(&self) -> (r: &Vec<BuildTag>)
        ensures
            r == &self.tags,
    {
        &self.tags
    }

    /// All tags, mutably.
    pub fn tags_mut(&mut self) -> (r: &mut Vec<BuildTag>)
        ensures
            *r == old(self).tags,
            final(self).tags == *final(r),
            final(self).message == old(self).message,
            final(self).origin == old(self).origin,
            final(self).created_at == old(self).created_at,
    {
        &mut self.tags
    }

    /// The location tag, if one is attached.
    pub fn location(&self) -> (r: Option<&BuildTag>)
        ensures
            match r {
                Some(tg) => tag_index(self@.tags, BuildTagKind::Location) >= 0 && tg@
                    == self@.tags[tag_index(self@.tags, BuildTagKind::Location)],
                None => tag_index(self@.tags, BuildTagKind::Location) == -1,
            },
    {
        self.tag(BuildTagKind::Location)
    }

    /// Whether a tag of kind `k` is attached.
    pub fn has_tag(&self, k: BuildTagKind) -> (r: bool)
        ensures
            r == (tag_index(self@.tags, k) >= 0),
    {
        match self.tag(k) {
            Some(_) => true,
            None => false,
        }
    }

    /// The `path[:line][:column]` text of the attached location tag, if
    /// one is attached; empty when the tag carries no location value.
    pub fn location_str(&self) -> (r: Option<Vec<u8>>)
        ensures
            match r {
                Some(s) => {
                    let ti = tag_index(self@.tags, BuildTagKind::Location);
                    ti >= 0 && s@ == match self@.tags[ti].location {
                        Some(l) => location_str_spec(l),
                        None => Seq::<u8>::empty(),
                    }
                },
                None => tag_index(self@.tags, BuildTagKind::Location) == -1,
            },
    {
        match self.location() {
            None => None,
            Some(tg) => match tg.get_location() {
                None => Some(Vec::new()),
                Some(loc) => {
                    let mut out = crate::bytes::clone_bytes(&loc.path);
                    match loc.line {
                        Some(n) => {
                            out.push(58);
                            let mut part = fmt_usize(n);
                            out.append(&mut part);
                        },
                        None => {},
                    }
                    match loc.column {
                        Some(c) => {
                            out.push(58);
                            let mut part = fmt_usize(c);
                            out.append(&mut part);
                        },
                        None => {},
                    }
                    proof {
                        let ti = tag_index(self@.tags, BuildTagKind::Location);
                        let l = self@.tags[ti].location->Some_0;
                        assert(out@ =~= location_str_spec(l));
                    }
                    Some(out)
                },
            },
        }
    }

    /// A deep copy.
    pub fn duplicate(&self) -> (r: Self)
        ensures
            r@ == self@,
    {
        let mut tags: Vec<BuildTag> = Vec::new();
        let n = self.tags.len();
        let mut i: usize = 0;
        while i < n
            invariant
                0 <= i <= n == self.tags@.len(),
                tags@.len() == i,
                forall|j: int| 0 <= j < i ==> (#[trigger] tags@[j])@ == self@.tags[j],
            decreases n - i,
        {
            let t = self.tags[i].duplicate();
            tags.push(t);
            i = i + 1;
        }
        let r = BuildEntry {
            created_at: self.created_at,
            message: crate::bytes::clone_bytes(&self.message),
            origin: self.origin,
            tags,
        };
        proof {
            assert forall|j: int| 0 <= j < n implies r@.tags[j] == self@.tags[j] by {}
            assert(r@.tags =~= self@.tags);
        }
        r
    }
}

} // verus!
