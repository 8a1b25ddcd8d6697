//! Tags attached to output lines: classification results (markers), source
//! locations and display hints, together with the specification of how a
//! rule's declared markers classify a line.

use vstd::prelude::*;

use crate::error::{Error, ErrorKind};
use crate::location::{Location, LocationModel};
use crate::marker::{CaptureModel, CapturedMarker, DeclModel, DeclaredMarker, MarkerRef,
    MarkerRefModel};
use crate::pattern::regex_find_spec;
use crate::range::ByteRange;
use crate::rule::{Rule, RuleModel};

verus! {

/// The kind of a tag.  An entry holds at most one tag per kind.
#[derive(Clone, Copy, Debug, PartialEq, Eq, Structural, Hash)]
pub enum BuildTagKind {
    /// A compiler warning marker.
    Warning,
    /// A compiler error marker.
    Error,
    /// A compiler note marker.
    Note,
    /// The entry is hidden from display.
    Hidden,
    /// A source location attached to a diagnostic block.
    Location,
}

/// Extra information attached to an entry.
#[derive(Clone, Debug, PartialEq)]
pub struct BuildTag {
    pub kind: BuildTagKind,
    pub marker: Option<MarkerRef>,
    pub location: Option<Location>,
}

/// Mathematical view of a [`BuildTag`].
pub ghost struct TagModel {
    pub kind: BuildTagKind,
    pub marker: Option<MarkerRefModel>,
    pub location: Option<LocationModel>,
}

impl View for BuildTag {
    type V = TagModel;

    open spec fn view(&self) -> TagModel {
        TagModel {
            kind: self.kind,
            marker: match self.marker {
                Some(m) => Some(m@),
                None => None,
            },
            location: match self.location {
                Some(l) => Some(l@),
                None => None,
            },
        }
    }
}

/// Index of the first tag of kind `k`, or -1 when there is none.
pub open spec fn tag_index(tags: Seq<TagModel>, k: BuildTagKind) -> int
    decreases tags.len(),
{
    if tags.len() == 0 {
        -1
    } else if tags[0].kind == k {
        0
    } else {
        let r = tag_index(tags.drop_first(), k);
        if r < 0 {
            -1
        } else {
            r + 1
        }
    }
}

pub proof fn lemma_tag_index(tags: Seq<TagModel>, k: BuildTagKind)
    ensures
        tag_index(tags, k) == -1 || 0 <= tag_index(tags, k) < tags.len(),
        tag_index(tags, k) >= 0 ==> tags[tag_index(tags, k)].kind == k && forall|j: int|
            0 <= j < tag_index(tags, k) ==> tags[j].kind != k,
        tag_index(tags, k) == -1 ==> forall|j: int| 0 <= j < tags.len() ==> tags[j].kind != k,
    decreases tags.len(),
{
    if tags.len() > 0 && tags[0].kind != k {
        lemma_tag_index(tags.drop_first(), k);
        if tag_index(tags.drop_first(), k) >= 0 {
            assert forall|j: int| 0 <= j < tag_index(tags, k) implies tags[j].kind != k by {
                if j > 0 {
                    assert(tags.drop_first()[j - 1] == tags[j]);
                }
            }
            assert(tags.drop_first()[tag_index(tags.drop_first(), k)] == tags[tag_index(tags, k)]);
        } else {
            assert forall|j: int| 0 <= j < tags.len() implies tags[j].kind != k by {
                if j > 0 {
                    assert(tags.drop_first()[j - 1] == tags[j]);
                }
            }
        }
    }
}

/// The index at which the first tag of kind `k` stands is determined by
/// what stands before it.
pub proof fn lemma_tag_index_is(tags: Seq<TagModel>, k: BuildTagKind, i: int)
    requires
        0 <= i < tags.len(),
        tags[i].kind == k,
        forall|j: int| 0 <= j < i ==> tags[j].kind != k,
    ensures
        tag_index(tags, k) == i,
{
    lemma_tag_index(tags, k);
}

/// There is no tag of kind `k`.
pub proof fn lemma_tag_index_none(tags: Seq<TagModel>, k: BuildTagKind)
    requires
        forall|j: int| 0 <= j < tags.len() ==> tags[j].kind != k,
    ensures
        tag_index(tags, k) == -1,
{
    lemma_tag_index(tags, k);
}

/// Index of the first tag that carries a marker, or -1 when there is none.
pub open spec fn first_marker_idx(tags: Seq<TagModel>) -> int
    decreases tags.len(),
{
    if tags.len() == 0 {
        -1
    } else if tags[0].marker is Some {
        0
    } else {
        let r = first_marker_idx(tags.drop_first());
        if r < 0 {
            -1
        } else {
            r + 1
        }
    }
}

pub proof fn lemma_first_marker_idx(tags: Seq<TagModel>)
    ensures
        first_marker_idx(tags) == -1 || 0 <= first_marker_idx(tags) < tags.len(),
        first_marker_idx(tags) >= 0 ==> tags[first_marker_idx(tags)].marker is Some && forall|
            j: int,
        | 0 <= j < first_marker_idx(tags) ==> tags[j].marker is None,
        first_marker_idx(tags) == -1 ==> forall|j: int|
            0 <= j < tags.len() ==> tags[j].marker is None,
    decreases tags.len(),
{
    if tags.len() > 0 && tags[0].marker is None {
        lemma_first_marker_idx(tags.drop_first());
        if first_marker_idx(tags.drop_first()) >= 0 {
            assert forall|j: int| 0 <= j < first_marker_idx(tags) implies tags[j].marker is None by {
                if j > 0 {
                    assert(tags.drop_first()[j - 1] == tags[j]);
                }
            }
            assert(tags.drop_first()[first_marker_idx(tags.drop_first())] == tags[first_marker_idx(
                tags,
            )]);
        } else {
            assert forall|j: int| 0 <= j < tags.len() implies tags[j].marker is None by {
                if j > 0 {
                    assert(tags.drop_first()[j - 1] == tags[j]);
                }
            }
        }
    }
}

/// The index of the first marker-carrying tag is determined by what
/// stands before it.
pub proof fn lemma_first_marker_idx_is(tags: Seq<TagModel>, i: int)
    requires
        0 <= i < tags.len(),
        tags[i].marker is Some,
        forall|j: int| 0 <= j < i ==> tags[j].marker is None,
    ensures
        first_marker_idx(tags) == i,
{
    lemma_first_marker_idx(tags);
}

/// No tag carries a marker.
pub proof fn lemma_first_marker_idx_none(tags: Seq<TagModel>)
    requires
        forall|j: int| 0 <= j < tags.len() ==> tags[j].marker is None,
    ensures
        first_marker_idx(tags) == -1,
{
    lemma_first_marker_idx(tags);
}

/// The marker of the first marker-carrying tag, if any.
pub open spec fn first_marker_model(tags: Seq<TagModel>) -> Option<MarkerRefModel> {
    if first_marker_idx(tags) >= 0 {
        tags[first_marker_idx(tags)].marker
    } else {
        None
    }
}

/// Attaching tag `t`: the first tag of the same kind is overwritten, or,
/// when there is none, `t` is appended.
pub open spec fn set_tag_spec(tags: Seq<TagModel>, t: TagModel) -> Seq<TagModel> {
    let i = tag_index(tags, t.kind);
    if i >= 0 {
        tags.update(i, t)
    } else {
        tags.push(t)
    }
}

/// The marker tag that a declared marker yields when its pattern matches
/// the byte range `[start, end)` of `msg`.
pub open spec fn marker_tag_model(m: DeclModel, start: usize, end: usize, msg: Seq<u8>) -> TagModel {
    TagModel {
        kind: m.tag,
        marker: Some(
            MarkerRefModel {
                captured: Some(
                    CaptureModel {
                        range: ByteRange { start, end },
                        text: msg.subrange(start as int, end as int),
                    },
                ),
                declared: m,
            },
        ),
        location: None,
    }
}

/// One classification step: when the declared marker's pattern matches,
/// its marker tag is attached; otherwise the tags are unchanged.
pub open spec fn apply_marker(tags: Seq<TagModel>, m: DeclModel, msg: Seq<u8>) -> Seq<TagModel> {
    match regex_find_spec(m.pattern, msg) {
        Some(p) => set_tag_spec(tags, marker_tag_model(m, p.0, p.1, msg)),
        None => tags,
    }
}

/// The tags after running every declared marker over `msg`, in declaration
/// order.
pub open spec fn classify_tags(tags: Seq<TagModel>, ms: Seq<DeclModel>, msg: Seq<u8>) -> Seq<
    TagModel,
>
    decreases ms.len(),
{
    if ms.len() == 0 {
        tags
    } else {
        classify_tags(apply_marker(tags, ms[0], msg), ms.drop_first(), msg)
    }
}

/// Unrolling of [`classify_tags`] from the right, used by loops that walk
/// the declared markers front to back.
pub proof fn lemma_classify_tags_push(
    tags: Seq<TagModel>,
    ms: Seq<DeclModel>,
    m: DeclModel,
    msg: Seq<u8>,
)
    ensures
        classify_tags(tags, ms.push(m), msg) == apply_marker(classify_tags(tags, ms, msg), m, msg),
    decreases ms.len(),
{
    let s1 = ms.push(m);
    if ms.len() == 0 {
        assert(s1.drop_first() =~= Seq::<DeclModel>::empty());
        assert(s1[0] == m);
        assert(classify_tags(tags, s1, msg) == classify_tags(
            apply_marker(tags, m, msg),
            Seq::<DeclModel>::empty(),
            msg,
        ));
        assert(classify_tags(tags, ms, msg) == tags);
    } else {
        assert(s1.drop_first() =~= ms.drop_first().push(m));
        assert(s1[0] == ms[0]);
        lemma_classify_tags_push(apply_marker(tags, ms[0], msg), ms.drop_first(), m, msg);
        assert(classify_tags(tags, s1, msg) == classify_tags(
            apply_marker(tags, ms[0], msg),
            ms.drop_first().push(m),
            msg,
        ));
        assert(classify_tags(tags, ms, msg) == classify_tags(
            apply_marker(tags, ms[0], msg),
            ms.drop_first(),
            msg,
        ));
    }
}

/// Index of the first declared marker of kind `k`, or -1.
pub open spec fn decl_index(ms: Seq<DeclModel>, k: BuildTagKind) -> int
    decreases ms.len(),
{
    if ms.len() == 0 {
        -1
    } else if ms[0].tag == k {
        0
    } else {
        let r = decl_index(ms.drop_first(), k);
        if r < 0 {
            -1
        } else {
            r + 1
        }
    }
}

pub proof fn lemma_decl_index(ms: Seq<DeclModel>, k: BuildTagKind)
    ensures
        decl_index(ms, k) == -1 || 0 <= decl_index(ms, k) < ms.len(),
        decl_index(ms, k) >= 0 ==> ms[decl_index(ms, k)].tag == k && forall|j: int|
            0 <= j < decl_index(ms, k) ==> ms[j].tag != k,
        decl_index(ms, k) == -1 ==> forall|j: int| 0 <= j < ms.len() ==> ms[j].tag != k,
    decreases ms.len(),
{
    if ms.len() > 0 && ms[0].tag != k {
        lemma_decl_index(ms.drop_first(), k);
        if decl_index(ms.drop_first(), k) >= 0 {
            assert forall|j: int| 0 <= j < decl_index(ms, k) implies ms[j].tag != k by {
                if j > 0 {
                    assert(ms.drop_first()[j - 1] == ms[j]);
                }
            }
            assert(ms.drop_first()[decl_index(ms.drop_first(), k)] == ms[decl_index(ms, k)]);
        } else {
            assert forall|j: int| 0 <= j < ms.len() implies ms[j].tag != k by {
                if j > 0 {
                    assert(ms.drop_first()[j - 1] == ms[j]);
                }
            }
        }
    }
}

/// The marker tag that [`BuildTag::marker`] yields when `rule` declares a
/// marker of kind `k`.
pub open spec fn marker_tag_result(
    rule: RuleModel,
    k: BuildTagKind,
    range: ByteRange,
    text: Seq<u8>,
) -> TagModel {
    TagModel {
        kind: k,
        marker: Some(
            MarkerRefModel {
                captured: Some(CaptureModel { range, text }),
                declared: rule.markers[decl_index(rule.markers, k)],
            },
        ),
        location: None,
    }
}

impl BuildTag {
    /// Build a marker tag of kind `tag` for the capture `[range, text)`,
    /// using the declared marker of that kind in `rule`.  Fails with a
    /// rule error when `rule` declares no marker of that kind.
    pub fn marker(rule: &Rule, tag: BuildTagKind, range: ByteRange, capture: Vec<u8>) -> (r: Result<
        BuildTag,
        Error,
    >)
        ensures
            decl_index(rule@.markers, tag) >= 0 ==> (r matches Ok(t) && t@ == marker_tag_result(
                rule@,
                tag,
                range,
                capture@,
            )),
            decl_index(rule@.markers, tag) < 0 ==> (r matches Err(e) && e.kind == ErrorKind::Rule),
    {
        proof {
            lemma_decl_index(rule@.markers, tag);
        }
        let n = rule.markers.len();
        let mut i: usize = 0;
        while i < n
            invariant
                0 <= i <= n == rule.markers@.len(),
                forall|j: int| 0 <= j < i ==> rule@.markers[j].tag != tag,
            decreases n - i,
        {
            if rule.markers[i].tag == tag {
                proof {
                    assert(rule@.markers[i as int] == rule.markers@[i as int]@);
                    lemma_tag_like_decl_at(rule@.markers, tag, i as int);
                }
                let declared = rule.markers[i].duplicate();
                let t = BuildTag {
                    kind: tag,
                    marker: Some(
                        MarkerRef {
                            captured: Some(CapturedMarker { range, text: capture }),
                            declared,
                        },
                    ),
                    location: None,
                };
                return Ok(t);
            }
            i = i + 1;
        }
        Err(Error { kind: ErrorKind::Rule, message: None, cause: None, location: None })
    }

    /// An error marker tag, from the rule's declared error marker.
    pub fn error(rule: &Rule, range: ByteRange, capture: Vec<u8>) -> (r: Result<BuildTag, Error>)
        ensures
            decl_index(rule@.markers, BuildTagKind::Error) >= 0 ==> (r matches Ok(t) && t@
                == marker_tag_result(rule@, BuildTagKind::Error, range, capture@)),
            decl_index(rule@.markers, BuildTagKind::Error) < 0 ==> (r matches Err(e) && e.kind
                == ErrorKind::Rule),
    {
        Self::marker(rule, BuildTagKind::Error, range, capture)
    }

    /// A warning marker tag, from the rule's declared warning marker.
    pub fn warning(rule: &Rule, range: ByteRange, capture: Vec<u8>) -> (r: Result<BuildTag, Error>)
        ensures
            decl_index(rule@.markers, BuildTagKind::Warning) >= 0 ==> (r matches Ok(t) && t@
                == marker_tag_result(rule@, BuildTagKind::Warning, range, capture@)),
            decl_index(rule@.markers, BuildTagKind::Warning) < 0 ==> (r matches Err(e) && e.kind
                == ErrorKind::Rule),
    {
        Self::marker(rule, BuildTagKind::Warning, range, capture)
    }

    /// A note marker tag, from the rule's declared note marker.
    pub fn note(rule: &Rule, range: ByteRange, capture: Vec<u8>) -> (r: Result<BuildTag, Error>)
        ensures
            decl_index(rule@.markers, BuildTagKind::Note) >= 0 ==> (r matches Ok(t) && t@
                == marker_tag_result(rule@, BuildTagKind::Note, range, capture@)),
            decl_index(rule@.markers, BuildTagKind::Note) < 0 ==> (r matches Err(e) && e.kind
                == ErrorKind::Rule),
    {
        Self::marker(rule, BuildTagKind::Note, range, capture)
    }

    /// A tag that hides its entry from display.
    pub fn hidden() -> (r: Self)
        ensures
            r@ == (TagModel { kind: BuildTagKind::Hidden, marker: None, location: None }),
    {
        BuildTag { kind: BuildTagKind::Hidden, marker: None, location: None }
    }

    /// A source-location tag.
    pub fn location(path: Vec<u8>, line: Option<usize>, column: Option<usize>) -> (r: Self)
        ensures
            r@ == (TagModel {
                kind: BuildTagKind::Location,
                marker: None,
                location: Some(LocationModel { path: path@, line, column }),
            }),
    {
        BuildTag {
            kind: BuildTagKind::Location,
            marker: None,
            location: Some(Location { path, line, column }),
        }
    }

    /// The tag's kind.
    pub fn get_kind(&self) -> (r: BuildTagKind)
        ensures
            r == self@.kind,
    {
        self.kind
    }

    /// The attached marker, if this is a marker tag.
    pub fn get_marker(&self) -> (r: Option<&MarkerRef>)
        ensures
            match r {
                Some(m) => self@.marker == Some(m@),
                None => self@.marker is None,
            },
    {
        self.marker.as_ref()
    }

    /// The captured text of the marker, if any.
    pub fn get_capture(&self) -> (r: Option<&CapturedMarker>)
        ensures
            match r {
                Some(c) => self@.marker matches Some(m) && m.captured == Some(c@),
                None => self@.marker is None || (self@.marker matches Some(m) && m.captured is None),
            },
    {
        match &self.marker {
            Some(m) => m.captured.as_ref(),
            None => None,
        }
    }

    /// The attached location, if this is a location tag.
    pub fn get_location(&self) -> (r: Option<&Location>)
        ensures
            match r {
                Some(l) => self@.location == Some(l@),
                None => self@.location is None,
            },
    {
        self.location.as_ref()
    }

    /// A deep copy.
    pub fn duplicate(&self) -> (r: Self)
        ensures
            r@ == self@,
    {
        BuildTag {
            kind: self.kind,
            marker: match &self.marker {
                Some(m) => Some(m.duplicate()),
                None => None,
            },
            location: match &self.location {
                Some(l) => Some(
                    Location {
                        path: crate::bytes::clone_bytes(&l.path),
                        line: l.line,
                        column: l.column,
                    },
                ),
                None => None,
            },
        }
    }
}

/// Helper for [`BuildTag::marker`]: the first declared marker of kind `k`
/// found by a front-to-back scan is the one `decl_index` names.
proof fn lemma_tag_like_decl_at(ms: Seq<DeclModel>, k: BuildTagKind, i: int)
    requires
        0 <= i < ms.len(),
        ms[i].tag == k,
        forall|j: int| 0 <= j < i ==> ms[j].tag != k,
    ensures
        decl_index(ms, k) == i,
{
    lemma_decl_index(ms, k);
}

} // verus!
