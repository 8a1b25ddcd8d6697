//! Classification rules: a named profile of declared markers with the
//! command it builds, the in-memory rule store with its active rule, and
//! the configuration-file name candidates the store is loaded from.

use vstd::prelude::*;

use crate::bytes::{byte_lit, eq_ignore_case_spec, lower_eq, lower_seq};
use crate::error::{Error, ErrorKind};
use crate::marker::{DeclModel, DeclaredMarker};
use crate::style::{TextColor, TextStyle};
use crate::tag::BuildTagKind;
use vstd::string::StringSliceAdditionalSpecFns;

verus! {

/// Base name of a configuration file.
pub const CONFIG_BASE_NAME: &'static str = "nbuild";

/// A named classification profile: aliases, the default command, and the
/// declared markers, in declaration order.
#[derive(Clone, Debug, PartialEq)]
pub struct Rule {
    pub aliases: Vec<Vec<u8>>,
    pub command: Vec<u8>,
    pub markers: Vec<DeclaredMarker>,
}

/// Mathematical view of a [`Rule`].
pub ghost struct RuleModel {
    pub aliases: Seq<Seq<u8>>,
    pub command: Seq<u8>,
    pub markers: Seq<DeclModel>,
}

impl View for Rule {
    type V = RuleModel;

    open spec fn view(&self) -> RuleModel {
        RuleModel {
            aliases: self.aliases@.map_values(|a: Vec<u8>| a@),
            command: self.command@,
            markers: self.markers@.map_values(|m: DeclaredMarker| m@),
        }
    }
}

/// The views of a sequence of rules.
pub open spec fn rules_view(rs: Seq<Rule>) -> Seq<RuleModel> {
    rs.map_values(|r: Rule| r@)
}

/// Whether some alias of `r` equals `name`, ignoring ASCII case.
pub open spec fn alias_has(r: RuleModel, name: Seq<u8>) -> bool {
    exists|k: int| 0 <= k < r.aliases.len() && eq_ignore_case_spec(#[trigger] r.aliases[k], name)
}

/// Whether some alias of `r`, lower-cased, equals `active` exactly.
pub open spec fn alias_lower_has(r: RuleModel, active: Seq<u8>) -> bool {
    exists|k: int| 0 <= k < r.aliases.len() && lower_seq(#[trigger] r.aliases[k]) == active
}

/// Whether some rule in the list has `name` among its aliases.
pub open spec fn store_has_rule(rules: Seq<RuleModel>, name: Seq<u8>) -> bool {
    exists|i: int| 0 <= i < rules.len() && alias_has(#[trigger] rules[i], name)
}

/// Whether two rules share an alias, ignoring ASCII case.
pub open spec fn shares_alias(a: RuleModel, b: RuleModel) -> bool {
    exists|j: int| 0 <= j < a.aliases.len() && alias_has(b, #[trigger] a.aliases[j])
}

/// Whether `r` shares an alias with some rule of `existing`.
pub open spec fn collides(existing: Seq<RuleModel>, r: RuleModel) -> bool {
    exists|i: int| 0 <= i < existing.len() && shares_alias(#[trigger] existing[i], r)
}

/// The rules of `loaded` kept by a merge: those whose aliases collide with
/// no rule of `existing`, in order.
pub open spec fn merge_keep(existing: Seq<RuleModel>, loaded: Seq<RuleModel>) -> Seq<RuleModel>
    decreases loaded.len(),
{
    if loaded.len() == 0 {
        Seq::empty()
    } else {
        merge_keep(existing, loaded.drop_last()) + if collides(existing, loaded.last()) {
            Seq::<RuleModel>::empty()
        } else {
            seq![loaded.last()]
        }
    }
}

/// An alias accepted case-insensitively still resolves after folding: when
/// some rule carries `name` up to ASCII case, some rule's lower-cased
/// alias equals the folded name the store keeps, so the active-rule lookup
/// succeeds whatever case the alias was given in.
pub proof fn lemma_active_rule_resolves(rules: Seq<RuleModel>, name: Seq<u8>)
    requires
        store_has_rule(rules, name),
    ensures
        exists|i: int|
            0 <= i < rules.len() && alias_lower_has(#[trigger] rules[i], lower_seq(name)),
{
    let i = choose|i: int| 0 <= i < rules.len() && alias_has(#[trigger] rules[i], name);
    let k = choose|k: int|
        0 <= k < rules[i].aliases.len() && eq_ignore_case_spec(
            #[trigger] rules[i].aliases[k],
            name,
        );
    assert(lower_seq(rules[i].aliases[k]) =~= lower_seq(name));
    assert(alias_lower_has(rules[i], lower_seq(name)));
}

impl Rule {
    /// Build a rule from its aliases, command and declared markers.
    pub fn new(aliases: Vec<Vec<u8>>, command: Vec<u8>, markers: Vec<DeclaredMarker>) -> (r: Self)
        ensures
            r@ == (RuleModel {
                aliases: aliases@.map_values(|a: Vec<u8>| a@),
                command: command@,
                markers: markers@.map_values(|m: DeclaredMarker| m@),
            }),
    {
        Rule { aliases, command, markers }
    }

    /// A deep copy.
    pub fn duplicate(&self) -> (r: Self)
        ensures
            r@ == self@,
    {
        let mut aliases: Vec<Vec<u8>> = Vec::new();
        let na = self.aliases.len();
        let mut i: usize = 0;
        while i < na
            invariant
                0 <= i <= na == self.aliases@.len(),
                aliases@.len() == i,
                forall|x: int| 0 <= x < i ==> (#[trigger] aliases@[x])@ == self@.aliases[x],
            decreases na - i,
        {
            let a = crate::bytes::clone_bytes(&self.aliases[i]);
            aliases.push(a);
            i = i + 1;
        }
        let mut markers: Vec<DeclaredMarker> = Vec::new();
        let nm = self.markers.len();
        let mut j: usize = 0;
        while j < nm
            invariant
                0 <= j <= nm == self.markers@.len(),
                markers@.len() == j,
                forall|x: int| 0 <= x < j ==> (#[trigger] markers@[x])@ == self@.markers[x],
            decreases nm - j,
        {
            let m = self.markers[j].duplicate();
            markers.push(m);
            j = j + 1;
        }
        let r = Rule { aliases, command: crate::bytes::clone_bytes(&self.command), markers };
        proof {
            assert forall|x: int| 0 <= x < na implies r@.aliases[x] == self@.aliases[x] by {}
            assert forall|x: int| 0 <= x < nm implies r@.markers[x] == self@.markers[x] by {}
            assert(r@.aliases =~= self@.aliases);
            assert(r@.markers =~= self@.markers);
        }
        r
    }

    /// Whether some alias of the rule equals `name`, ignoring ASCII case.
    pub fn has_alias(&self, name: &Vec<u8>) -> (r: bool)
        ensures
            r == alias_has(self@, name@),
    {
        let n = self.aliases.len();
        let mut i: usize = 0;
        while i < n
            invariant
                0 <= i <= n == self.aliases@.len(),
                forall|j: int| 0 <= j < i ==> !eq_ignore_case_spec(self@.aliases[j], name@),
            decreases n - i,
        {
            if crate::bytes::eq_ignore_case(&self.aliases[i], name) {
                proof {
                    assert(self@.aliases[i as int] == self.aliases@[i as int]@);
                    assert(eq_ignore_case_spec(self@.aliases[i as int], name@));
                }
                assert(alias_has(self@, name@));
                return true;
            }
            i = i + 1;
        }
        false
    }

    /// Whether some alias of the rule, lower-cased, equals `active`.
    pub fn has_lower_alias(&self, active: &Vec<u8>) -> (r: bool)
        ensures
            r == alias_lower_has(self@, active@),
    {
        let n = self.aliases.len();
        let mut i: usize = 0;
        while i < n
            invariant
                0 <= i <= n == self.aliases@.len(),
                forall|j: int| 0 <= j < i ==> lower_seq(self@.aliases[j]) != active@,
            decreases n - i,
        {
            if lower_eq(&self.aliases[i], active) {
                proof {
                    assert(self@.aliases[i as int] == self.aliases@[i as int]@);
                    assert(lower_seq(self@.aliases[i as int]) == active@);
                }
                assert(alias_lower_has(self@, active@));
                return true;
            }
            i = i + 1;
        }
        false
    }

    /// Whether the two rules share an alias, ignoring ASCII case.
    pub fn shares_alias_with(&self, other: &Rule) -> (r: bool)
        ensures
            r == shares_alias(self@, other@),
    {
        let n = self.aliases.len();
        let mut i: usize = 0;
        while i < n
            invariant
                0 <= i <= n == self.aliases@.len(),
                forall|j: int| 0 <= j < i ==> !alias_has(other@, self@.aliases[j]),
            decreases n - i,
        {
            if other.has_alias(&self.aliases[i]) {
                proof {
                    assert(self@.aliases[i as int] == self.aliases@[i as int]@);
                    assert(alias_has(other@, self@.aliases[i as int]));
                }
                assert(shares_alias(self@, other@));
                return true;
            }
            i = i + 1;
        }
        false
    }
}

/// The built-in default rule: aliases `rust: cargo`, `cargo` and `rust`,
/// command `cargo build`, and error / note / warning markers that
/// recognise `error[...]:`-style prefixes anywhere in a line.
pub open spec fn default_rule_spec() -> RuleModel {
    RuleModel {
        aliases: seq![
            ("rust: cargo").spec_bytes(),
            ("cargo").spec_bytes(),
            ("rust").spec_bytes(),
        ],
        command: ("cargo build").spec_bytes(),
        markers: seq![
            DeclModel {
                tag: BuildTagKind::Error,
                pattern: ("error(\\[\\w+\\])?:").spec_bytes(),
                style: TextStyle::bold_spec(TextColor::Red),
            },
            DeclModel {
                tag: BuildTagKind::Note,
                pattern: ("note(\\[\\w+\\])?:").spec_bytes(),
                style: TextStyle::bold_spec(TextColor::Blue),
            },
            DeclModel {
                tag: BuildTagKind::Warning,
                pattern: ("warning(\\[\\w+\\])?:").spec_bytes(),
                style: TextStyle::bold_spec(TextColor::Yellow),
            },
        ],
    }
}

/// Build the default rule.
pub fn default_rule() -> (r: Rule)
    ensures
        r@ == default_rule_spec(),
{
    let mut aliases: Vec<Vec<u8>> = Vec::new();
    aliases.push(byte_lit("rust: cargo"));
    aliases.push(byte_lit("cargo"));
    aliases.push(byte_lit("rust"));
    let mut markers: Vec<DeclaredMarker> = Vec::new();
    markers.push(
        DeclaredMarker::new(
            BuildTagKind::Error,
            byte_lit("error(\\[\\w+\\])?:"),
            TextStyle::bold(TextColor::Red),
        ),
    );
    markers.push(
        DeclaredMarker::new(
            BuildTagKind::Note,
            byte_lit("note(\\[\\w+\\])?:"),
            TextStyle::bold(TextColor::Blue),
        ),
    );
    markers.push(
        DeclaredMarker::new(
            BuildTagKind::Warning,
            byte_lit("warning(\\[\\w+\\])?:"),
            TextStyle::bold(TextColor::Yellow),
        ),
    );
    let r = Rule { aliases, command: byte_lit("cargo build"), markers };
    proof {
        assert(r@.aliases =~= default_rule_spec().aliases);
        assert(r@.markers =~= default_rule_spec().markers);
    }
    r
}

/// The rule table and the name of the active rule.
#[derive(Debug)]
pub struct RuleStore {
    pub rules: Vec<Rule>,
    pub active: Vec<u8>,
}

impl RuleStore {
    /// A store holding the built-in default rule, with `rust` active.
    pub fn new() -> (r: Self)
        ensures
            rules_view(r.rules@) == seq![default_rule_spec()],
            r.active@ == ("rust").spec_bytes(),
    {
        let mut rules: Vec<Rule> = Vec::new();
        rules.push(default_rule());
        let r = RuleStore { rules, active: byte_lit("rust") };
        proof {
            assert(rules_view(r.rules@) =~= seq![default_rule_spec()]);
        }
        r
    }

    /// The rule table.
    pub fn rules(&self) -> (r: &Vec<Rule>)
        ensures
            r == &self.rules,
    {
        &self.rules
    }

    /// The name of the active rule.
    pub fn active_rule_name(&self) -> (r: Vec<u8>)
        ensures
            r@ == self.active@,
    {
        crate::bytes::clone_bytes(&self.active)
    }

    /// Make the rule with alias `name` active, storing the name folded to
    /// lower case so that later lookups are insensitive to the case the
    /// alias was given in.  Fails with a rule error, leaving the store
    /// unchanged, when no rule has that alias.
    pub fn set_active_rule(&mut self, name: &Vec<u8>) -> (r: Result<(), Error>)
        ensures
            final(self).rules == old(self).rules,
            store_has_rule(rules_view(old(self).rules@), name@) ==> r is Ok && final(self).active@
                == crate::bytes::lower_seq(name@),
            !store_has_rule(rules_view(old(self).rules@), name@) ==> r is Err && final(self).active
                == old(self).active && r->Err_0.kind == ErrorKind::Rule,
    {
        let ghost rv = rules_view(self.rules@);
        let n = self.rules.len();
        let mut i: usize = 0;
        while i < n
            invariant
                0 <= i <= n == self.rules@.len(),
                rv == rules_view(self.rules@),
                forall|j: int| 0 <= j < i ==> !alias_has(rv[j], name@),
                *self == *old(self),
            decreases n - i,
        {
            if self.rules[i].has_alias(name) {
                proof {
                    assert(alias_has(rv[i as int], name@));
                }
                self.active = crate::bytes::to_lower(name);
                return Ok(());
            }
            i = i + 1;
        }
        assert(!store_has_rule(rv, name@));
        Err(Error { kind: ErrorKind::Rule, message: None, cause: None, location: None })
    }

    /// A copy of the first rule with alias `name`, ignoring ASCII case.
    pub fn rule(&self, name: &Vec<u8>) -> (r: Option<Rule>)
        ensures
            match r {
                Some(rl) => exists|i: int|
                    0 <= i < rules_view(self.rules@).len() && alias_has(
                        #[trigger] rules_view(self.rules@)[i],
                        name@,
                    ) && rl@ == rules_view(self.rules@)[i] && forall|j: int|
                        0 <= j < i ==> !alias_has(rules_view(self.rules@)[j], name@),
                None => !store_has_rule(rules_view(self.rules@), name@),
            },
    {
        let ghost rv = rules_view(self.rules@);
        let n = self.rules.len();
        let mut i: usize = 0;
        while i < n
            invariant
                0 <= i <= n == self.rules@.len(),
                rv == rules_view(self.rules@),
                forall|j: int| 0 <= j < i ==> !alias_has(rv[j], name@),
            decreases n - i,
        {
            if self.rules[i].has_alias(name) {
                let d = self.rules[i].duplicate();
                proof {
                    assert(alias_has(rv[i as int], name@) && d@ == rv[i as int]);
                }
                return Some(d);
            }
            i = i + 1;
        }
        assert(!store_has_rule(rv, name@));
        None
    }

    /// A copy of the first rule one of whose lower-cased aliases equals
    /// the active rule name.
    pub fn active_rule(&self) -> (r: Option<Rule>)
        ensures
            match r {
                Some(rl) => exists|i: int|
                    0 <= i < rules_view(self.rules@).len() && alias_lower_has(
                        #[trigger] rules_view(self.rules@)[i],
                        self.active@,
                    ) && rl@ == rules_view(self.rules@)[i] && forall|j: int|
                        0 <= j < i ==> !alias_lower_has(rules_view(self.rules@)[j], self.active@),
                None => forall|i: int|
                    0 <= i < rules_view(self.rules@).len() ==> !alias_lower_has(
                        #[trigger] rules_view(self.rules@)[i],
                        self.active@,
                    ),
            },
    {
        let ghost rv = rules_view(self.rules@);
        let n = self.rules.len();
        let mut i: usize = 0;
        while i < n
            invariant
                0 <= i <= n == self.rules@.len(),
                rv == rules_view(self.rules@),
                forall|j: int| 0 <= j < i ==> !alias_lower_has(rv[j], self.active@),
            decreases n - i,
        {
            if self.rules[i].has_lower_alias(&self.active) {
                let d = self.rules[i].duplicate();
                proof {
                    assert(alias_lower_has(rv[i as int], self.active@) && d@ == rv[i as int]);
                }
                return Some(d);
            }
            i = i + 1;
        }
        None
    }

    /// Merge loaded rules into the table, appending only those whose
    /// aliases collide with no rule already present; collisions are
    /// decided against the table as it stood before the merge.
    pub fn merge_rules(&mut self, loaded: &Vec<Rule>)
        ensures
            rules_view(final(self).rules@) == rules_view(old(self).rules@) + merge_keep(
                rules_view(old(self).rules@),
                rules_view(loaded@),
            ),
            final(self).active == old(self).active,
    {
        let ghost ex0 = rules_view(self.rules@);
        let ghost lv = rules_view(loaded@);
        let n0 = self.rules.len();
        let n = loaded.len();
        let mut i: usize = 0;
        while i < n
            invariant
                0 <= i <= n == loaded@.len(),
                n0 == ex0.len(),
                ex0 == rules_view(old(self).rules@),
                lv == rules_view(loaded@),
                self.active == old(self).active,
                n0 <= self.rules@.len(),
                forall|j: int| 0 <= j < n0 ==> rules_view(self.rules@)[j] == ex0[j],
                rules_view(self.rules@) == ex0 + merge_keep(ex0, lv.take(i as int)),
            decreases n - i,
        {
            proof {
                assert(lv.take(i + 1).drop_last() =~= lv.take(i as int));
                assert(lv.take(i + 1).last() == lv[i as int]);
            }
            let ghost before = rules_view(self.rules@);
            proof {
                assert(lv[i as int] == loaded@[i as int]@);
            }
            let mut hit = false;
            let mut j: usize = 0;
            while j < n0
                invariant
                    0 <= j <= n0 <= self.rules@.len(),
                    n0 == ex0.len(),
                    forall|x: int| 0 <= x < n0 ==> rules_view(self.rules@)[x] == ex0[x],
                    lv == rules_view(loaded@),
                    i < lv.len(),
                    !hit ==> forall|x: int| 0 <= x < j ==> !shares_alias(ex0[x], lv[i as int]),
                    lv[i as int] == loaded@[i as int]@,
                    hit ==> collides(ex0, lv[i as int]),
                ensures
                    hit ==> collides(ex0, lv[i as int]),
                    !hit ==> forall|x: int| 0 <= x < n0 ==> !shares_alias(ex0[x], lv[i as int]),
                decreases n0 - j,
            {
                if self.rules[j].shares_alias_with(&loaded[i]) {
                    proof {
                        assert(rules_view(self.rules@)[j as int] == self.rules@[j as int]@);
                        assert(lv[i as int] == loaded@[i as int]@);
                        assert(shares_alias(ex0[j as int], lv[i as int]));
                    }
                    hit = true;
                    break ;
                }
                j = j + 1;
            }
            if !hit {
                assert(!collides(ex0, lv[i as int]));
                let d = loaded[i].duplicate();
                self.rules.push(d);
                proof {
                    assert(rules_view(self.rules@) =~= before.push(lv[i as int]));
                    assert(rules_view(self.rules@) =~= ex0 + merge_keep(ex0, lv.take(i + 1)));
                }
            } else {
                proof {
                    assert(rules_view(self.rules@) =~= ex0 + merge_keep(ex0, lv.take(i + 1)));
                }
            }
            i = i + 1;
        }
        proof {
            assert(lv.take(n as int) =~= lv);
        }
    }
}

impl Default for RuleStore {
    /// A store holding the built-in default rule, with `rust` active.
    fn default() -> (r: Self)
        ensures
            rules_view(r.rules@) == seq![default_rule_spec()],
            r.active@ == ("rust").spec_bytes(),
    {
        RuleStore::new()
    }
}

} // verus!
