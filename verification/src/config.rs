//! Configuration-file discovery: the serialization formats, the candidate
//! paths searched for a rule file, and the format a path's extension picks.
//! Reading and writing the files themselves is the front end's work.

use vstd::prelude::*;

use crate::bytes::{byte_lit, clone_bytes, eq_ignore_case, eq_ignore_case_spec, starts_with,
    starts_with_spec};
use vstd::string::StringSliceAdditionalSpecFns;

verus! {

/// A serialization format a rule file may use.
#[derive(Clone, Copy, Debug, PartialEq, Eq, Structural)]
pub enum FormatKind {
    Json,
    Yaml,
    Toml,
}

/// One enabled format: the file extensions it claims, in preference
/// order, and which serializer handles it.
#[derive(Clone, Debug, PartialEq)]
pub struct RuleFormat {
    pub exts: Vec<Vec<u8>>,
    pub kind: FormatKind,
}

impl RuleFormat {
    /// Build a format from its extensions and kind.
    pub fn new(exts: Vec<Vec<u8>>, kind: FormatKind) -> (r: Self)
        ensures
            r.exts == exts,
            r.kind == kind,
    {
        RuleFormat { exts, kind }
    }
}

/// The enabled formats, in discovery order.
pub fn rule_formats() -> (r: Vec<RuleFormat>)
    ensures
        r@.len() == 3,
        r@[0].kind == FormatKind::Json && r@[0].exts@.len() == 1 && r@[0].exts@[0]@ == (
        "json").spec_bytes(),
        r@[1].kind == FormatKind::Yaml && r@[1].exts@.len() == 2 && r@[1].exts@[0]@ == (
        "yaml").spec_bytes() && r@[1].exts@[1]@ == ("yml").spec_bytes(),
        r@[2].kind == FormatKind::Toml && r@[2].exts@.len() == 1 && r@[2].exts@[0]@ == (
        "toml").spec_bytes(),
{
    let mut r: Vec<RuleFormat> = Vec::new();
    let mut json_exts: Vec<Vec<u8>> = Vec::new();
    json_exts.push(byte_lit("json"));
    r.push(RuleFormat { exts: json_exts, kind: FormatKind::Json });
    let mut yaml_exts: Vec<Vec<u8>> = Vec::new();
    yaml_exts.push(byte_lit("yaml"));
    yaml_exts.push(byte_lit("yml"));
    r.push(RuleFormat { exts: yaml_exts, kind: FormatKind::Yaml });
    let mut toml_exts: Vec<Vec<u8>> = Vec::new();
    toml_exts.push(byte_lit("toml"));
    r.push(RuleFormat { exts: toml_exts, kind: FormatKind::Toml });
    r
}

/// Position of the last dot of `s`, or -1 when there is none.
pub open spec fn last_dot(s: Seq<u8>) -> int
    decreases s.len(),
{
    if s.len() == 0 {
        -1
    } else if s.last() == 46 {
        s.len() - 1
    } else {
        last_dot(s.drop_last())
    }
}

pub proof fn lemma_last_dot(s: Seq<u8>)
    ensures
        -1 <= last_dot(s) < s.len(),
        last_dot(s) >= 0 ==> s[last_dot(s)] == 46 && forall|j: int|
            last_dot(s) < j < s.len() ==> s[j] != 46,
        last_dot(s) == -1 ==> forall|j: int| 0 <= j < s.len() ==> s[j] != 46,
    decreases s.len(),
{
    if s.len() > 0 && s.last() != 46 {
        lemma_last_dot(s.drop_last());
        assert forall|j: int| 0 <= j < s.drop_last().len() implies s.drop_last()[j] == s[j] by {}
    }
}

/// The extension of a path: what follows the last dot, when one exists.
pub open spec fn ext_of(s: Seq<u8>) -> Option<Seq<u8>> {
    if last_dot(s) >= 0 {
        Some(s.skip(last_dot(s) + 1))
    } else {
        None
    }
}

/// The format a path's extension picks, comparing extensions without
/// regard to ASCII case.
pub open spec fn format_of(s: Seq<u8>) -> Option<FormatKind> {
    match ext_of(s) {
        Some(e) => if eq_ignore_case_spec(e, ("json").spec_bytes()) {
            Some(FormatKind::Json)
        } else if eq_ignore_case_spec(e, ("yaml").spec_bytes()) || eq_ignore_case_spec(
            e,
            ("yml").spec_bytes(),
        ) {
            Some(FormatKind::Yaml)
        } else if eq_ignore_case_spec(e, ("toml").spec_bytes()) {
            Some(FormatKind::Toml)
        } else {
            None
        },
        None => None,
    }
}

/// The format that handles the file at `path`, by its extension.
pub fn find_format(path: &Vec<u8>) -> (r: Option<FormatKind>)
    ensures
        r == format_of(path@),
{
    let n = path.len();
    let mut i: usize = n;
    proof {
        assert(path@.take(n as int) =~= path@);
    }
    while i > 0
        invariant
            0 <= i <= n == path@.len(),
            forall|j: int| i <= j < n ==> path@[j] != 46,
            last_dot(path@) == last_dot(path@.take(i as int)),
        decreases i,
    {
        proof {
            assert(path@.take(i as int).drop_last() =~= path@.take(i - 1));
            assert(path@.take(i as int).last() == path@[i - 1]);
        }
        if path[i - 1] == 46 {
            let ext = crate::bytes::subvec(path, i, n);
            proof {
                assert(last_dot(path@) == i - 1);
                assert(ext@ =~= path@.skip(i as int));
            }
            let json = byte_lit("json");
            let yaml = byte_lit("yaml");
            let yml = byte_lit("yml");
            let toml_ext = byte_lit("toml");
            if eq_ignore_case(&ext, &json) {
                return Some(FormatKind::Json);
            } else if eq_ignore_case(&ext, &yaml) || eq_ignore_case(&ext, &yml) {
                return Some(FormatKind::Yaml);
            } else if eq_ignore_case(&ext, &toml_ext) {
                return Some(FormatKind::Toml);
            } else {
                return None;
            }
        }
        i = i - 1;
    }
    proof {
        assert(path@.take(0int) =~= Seq::<u8>::empty());
        assert(last_dot(path@) == -1);
    }
    None
}

/// One candidate path: the base directory, a slash, the configuration
/// base name, a dot and the extension.
pub open spec fn candidate_path(base: Seq<u8>, ext: Seq<u8>) -> Seq<u8> {
    base + ("/nbuild.").spec_bytes() + ext
}

/// The extension tried at position `e` of every base directory.
pub open spec fn ext_at(e: int) -> Seq<u8> {
    if e == 0 {
        ("json").spec_bytes()
    } else if e == 1 {
        ("yaml").spec_bytes()
    } else if e == 2 {
        ("yml").spec_bytes()
    } else {
        ("toml").spec_bytes()
    }
}

/// The candidate configuration paths: for every base directory, in order,
/// one path per enabled extension, in format order.
pub fn search_locations(bases: &Vec<Vec<u8>>) -> (r: Vec<Vec<u8>>)
    requires
        bases@.len() * 4 <= usize::MAX,
    ensures
        r@.len() == bases@.len() * 4,
        forall|b: int, e: int|
            0 <= b < bases@.len() && 0 <= e < 4 ==> (#[trigger] r@[b * 4 + e])@ == candidate_path(
                bases@[b]@,
                ext_at(e),
            ),
{
    let infix = byte_lit("/nbuild.");
    let mut r: Vec<Vec<u8>> = Vec::new();
    let n = bases.len();
    let mut b: usize = 0;
    while b < n
        invariant
            0 <= b <= n == bases@.len(),
            n * 4 <= usize::MAX,
            infix@ == ("/nbuild.").spec_bytes(),
            r@.len() == b * 4,
            forall|x: int, e: int|
                0 <= x < b && 0 <= e < 4 ==> (#[trigger] r@[x * 4 + e])@ == candidate_path(
                    bases@[x]@,
                    ext_at(e),
                ),
        decreases n - b,
    {
        proof {
            assert(b * 4 + 4 <= n * 4) by (nonlinear_arith)
                requires
                    b < n,
            ;
        }
        let mut e: usize = 0;
        while e < 4
            invariant
                0 <= e <= 4,
                0 <= b < n == bases@.len(),
                n * 4 <= usize::MAX,
                b * 4 + 4 <= n * 4,
                infix@ == ("/nbuild.").spec_bytes(),
                r@.len() == b * 4 + e,
                forall|x: int, y: int|
                    0 <= x < b && 0 <= y < 4 ==> (#[trigger] r@[x * 4 + y])@ == candidate_path(
                        bases@[x]@,
                        ext_at(y),
                    ),
                forall|y: int|
                    0 <= y < e ==> (#[trigger] r@[b * 4 + y])@ == candidate_path(
                        bases@[b as int]@,
                        ext_at(y),
                    ),
            decreases 4 - e,
        {
            let mut path = clone_bytes(&bases[b]);
            let mut mid = clone_bytes(&infix);
            path.append(&mut mid);
            let mut ext = if e == 0 {
                byte_lit("json")
            } else if e == 1 {
                byte_lit("yaml")
            } else if e == 2 {
                byte_lit("yml")
            } else {
                byte_lit("toml")
            };
            proof {
                assert(ext@ == ext_at(e as int));
            }
            path.append(&mut ext);
            proof {
                assert(path@ =~= candidate_path(bases@[b as int]@, ext_at(e as int)));
            }
            r.push(path);
            e = e + 1;
        }
        b = b + 1;
    }
    r
}

/// The first candidate that lies under the user's configuration
/// directory, if any: the default place a fresh configuration is written.
pub fn default_system_location(locations: &Vec<Vec<u8>>, config_dir: &Vec<u8>) -> (r: Option<
    Vec<u8>,
>)
    ensures
        match r {
            Some(p) => exists|i: int|
                0 <= i < locations@.len() && p@ == (#[trigger] locations@[i])@ && starts_with_spec(
                    locations@[i]@,
                    config_dir@,
                ) && forall|j: int|
                    0 <= j < i ==> !starts_with_spec(locations@[j]@, config_dir@),
            None => forall|i: int|
                0 <= i < locations@.len() ==> !starts_with_spec(
                    (#[trigger] locations@[i])@,
                    config_dir@,
                ),
        },
{
    let n = locations.len();
    let mut i: usize = 0;
    while i < n
        invariant
            0 <= i <= n == locations@.len(),
            forall|j: int| 0 <= j < i ==> !starts_with_spec(locations@[j]@, config_dir@),
        decreases n - i,
    {
        if starts_with(&locations[i], config_dir) {
            let p = clone_bytes(&locations[i]);
            return Some(p);
        }
        i = i + 1;
    }
    None
}

} // verus!
