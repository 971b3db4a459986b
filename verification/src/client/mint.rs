//! The request that mints a key.

use vstd::prelude::*;

use crate::json::Doc;
use crate::json::Json;
use crate::labels::Labels;
use crate::record;
use crate::record::Writer;
use crate::text;
use crate::wire;
use crate::wire::Wire;

verus! {

/// `POST /keys`: the key to mint.
///
/// The gateway refuses a body with a member that it does not know, so that what is not asked for
/// is left out.
#[derive(Debug)]
pub struct CreateKeyReq {
    pub name: String,
    /// `None` is every pool and is left out; an empty list is no pool and is sent as `[]`.
    pub allowed_pools: Option<Vec<String>>,
    /// The group that the key is bound to.
    pub group: Option<String>,
    /// The existing group under which `group` is created if it does not exist.
    pub parent: Option<String>,
    /// How long the token lives, as a duration such as `7d`.
    pub expires_in: Option<String>,
    /// When the token expires, in Unix seconds.
    pub expires_at: Option<u64>,
    pub labels: Labels,
    pub issue_aws_credential: bool,
}

/// What is asked for when a key is minted.
pub struct Mint {
    pub name: Seq<char>,
    pub allowed_pools: Option<Seq<Seq<char>>>,
    pub group: Option<Seq<char>>,
    pub parent: Option<Seq<char>>,
    pub expires_in: Option<Seq<char>>,
    pub expires_at: Option<nat>,
    pub labels: Seq<(Seq<char>, Seq<char>)>,
    pub issue_aws_credential: bool,
}

/// `members` with one more, where there is a value for it.
pub open spec fn with_some(
    members: Seq<(Seq<char>, Doc)>,
    name: Seq<char>,
    value: Option<Doc>,
) -> Seq<(Seq<char>, Doc)> {
    match value {
        Some(v) => members.push((name, v)),
        None => members,
    }
}

/// A text as a document, where there is one.
pub open spec fn text_doc(s: Option<Seq<char>>) -> Option<Doc> {
    match s {
        Some(s) => Some(Doc::Text(s)),
        None => None,
    }
}

/// A list of texts as a document, where there is one.
pub open spec fn texts_doc(list: Option<Seq<Seq<char>>>) -> Option<Doc> {
    match list {
        Some(list) => Some(Doc::Array(list.map_values(|s: Seq<char>| Doc::Text(s)))),
        None => None,
    }
}

impl Mint {
    /// The members of the body, in order: the name, then whatever is asked for.
    pub open spec fn members(self) -> Seq<(Seq<char>, Doc)> {
        let m0 = seq![("name"@, Doc::Text(self.name))];
        let m1 = with_some(m0, "allowed_pools"@, texts_doc(self.allowed_pools));
        let m2 = with_some(m1, "group"@, text_doc(self.group));
        let m3 = with_some(m2, "parent"@, text_doc(self.parent));
        let m4 = with_some(m3, "expires_in"@, text_doc(self.expires_in));
        let m5 = with_some(
            m4,
            "expires_at"@,
            match self.expires_at {
                Some(n) => Some(Doc::Unsigned(n)),
                None => None,
            },
        );
        let m6 = with_some(
            m5,
            "labels"@,
            if self.labels.len() > 0 {
                Some(Doc::Object(wire::label_members(self.labels)))
            } else {
                None
            },
        );
        with_some(
            m6,
            "issue_aws_credential"@,
            if self.issue_aws_credential {
                Some(Doc::Bool(true))
            } else {
                None
            },
        )
    }
}

impl View for CreateKeyReq {
    type V = Mint;

    open spec fn view(&self) -> Mint {
        Mint {
            name: self.name@,
            allowed_pools: text::opt_texts(self.allowed_pools),
            group: text::opt_text(self.group),
            parent: text::opt_text(self.parent),
            expires_in: text::opt_text(self.expires_in),
            expires_at: match self.expires_at {
                Some(n) => Some(n as nat),
                None => None,
            },
            labels: self.labels@,
            issue_aws_credential: self.issue_aws_credential,
        }
    }
}

fn put_some<T: Wire>(w: &mut Writer, name: &str, value: &Option<T>)
    ensures
        final(w)@ == with_some(
            old(w)@,
            name@,
            match *value {
                Some(v) => Some(v.doc()),
                None => None,
            },
        ),
{
    if let Some(v) = value {
        w.put(name, v);
    }
}

impl CreateKeyReq {
    /// The body of the request.
    pub fn to_json(&self) -> (json: Json)
        ensures
            json@ == Doc::Object(self@.members()),
    {
        let mut w: Writer = Writer::new();
        w.put("name", &self.name);
        proof {
            assert(w@ =~= seq![("name"@, Doc::Text(self.name@))]);
            if let Some(list) = &self.allowed_pools {
                assert(list.doc()->Array_0 =~= text::texts(list@).map_values(
                    |s: Seq<char>| Doc::Text(s),
                ));
            }
        }
        put_some(&mut w, "allowed_pools", &self.allowed_pools);
        put_some(&mut w, "group", &self.group);
        put_some(&mut w, "parent", &self.parent);
        put_some(&mut w, "expires_in", &self.expires_in);
        put_some(&mut w, "expires_at", &self.expires_at);
        if !self.labels.is_empty() {
            w.put("labels", &self.labels);
        }
        if self.issue_aws_credential {
            w.put("issue_aws_credential", &self.issue_aws_credential);
        }
        w.finish()
    }
}

/// The names that a mint body may hold.
pub open spec fn mint_name(name: Seq<char>) -> bool {
    ||| name == "name"@
    ||| name == "allowed_pools"@
    ||| name == "group"@
    ||| name == "parent"@
    ||| name == "expires_in"@
    ||| name == "expires_at"@
    ||| name == "labels"@
    ||| name == "issue_aws_credential"@
}

/// A mint body holds no member but the eight that the gateway knows.
pub proof fn law_mint_body_names(mint: Mint)
    ensures
        forall|i: int| 0 <= i < mint.members().len() ==> mint_name((#[trigger] mint.members()[i]).0),
{
}

/// The budget and rate fields of older gateways are never sent.
pub proof fn law_mint_body_holds_no_legacy_field(mint: Mint, i: int)
    requires
        0 <= i < mint.members().len(),
    ensures
        mint.members()[i].0 != "budget"@,
        mint.members()[i].0 != "budget_period"@,
        mint.members()[i].0 != "rpm_limit"@,
        mint.members()[i].0 != "tpm_limit"@,
        mint.members()[i].0 != "max_budget_cents"@,
{
    law_mint_body_names(mint);
    assert(mint_name(mint.members()[i].0));
    reveal_strlit("name");
    reveal_strlit("allowed_pools");
    reveal_strlit("group");
    reveal_strlit("parent");
    reveal_strlit("expires_in");
    reveal_strlit("expires_at");
    reveal_strlit("labels");
    reveal_strlit("issue_aws_credential");
    reveal_strlit("budget");
    reveal_strlit("budget_period");
    reveal_strlit("rpm_limit");
    reveal_strlit("tpm_limit");
    reveal_strlit("max_budget_cents");
    assert("name"@.len() == 4);
    assert("allowed_pools"@.len() == 13);
    assert("group"@.len() == 5);
    assert("parent"@.len() == 6);
    assert("expires_in"@.len() == 10);
    assert("expires_at"@.len() == 10);
    assert("labels"@.len() == 6);
    assert("issue_aws_credential"@.len() == 20);
    assert("budget"@.len() == 6);
    assert("budget_period"@.len() == 13);
    assert("rpm_limit"@.len() == 9);
    assert("tpm_limit"@.len() == 9);
    assert("max_budget_cents"@.len() == 16);
    assert("budget"@[0] != "parent"@[0]);
    assert("budget"@[0] != "labels"@[0]);
    assert("budget_period"@[0] != "allowed_pools"@[0]);
}

/// A request that asks for nothing but a name is sent as the name alone.
pub proof fn law_minimal_mint_body(mint: Mint)
    requires
        mint.allowed_pools is None,
        mint.group is None,
        mint.parent is None,
        mint.expires_in is None,
        mint.expires_at is None,
        mint.labels.len() == 0,
        !mint.issue_aws_credential,
    ensures
        mint.members() == seq![("name"@, Doc::Text(mint.name))],
{
}

/// The three states of the pools stay apart in the body: every pool is no member, and a list,
/// empty or not, is one member with exactly that list.
pub proof fn law_mint_body_pools(mint: Mint)
    ensures
        match mint.allowed_pools {
            None => record::hits(mint.members(), "allowed_pools"@) == Seq::<Doc>::empty(),
            Some(list) => record::hits(mint.members(), "allowed_pools"@) == seq![
                Doc::Array(list.map_values(|s: Seq<char>| Doc::Text(s))),
            ],
        },
{
    reveal_strlit("name");
    reveal_strlit("allowed_pools");
    reveal_strlit("group");
    reveal_strlit("parent");
    reveal_strlit("expires_in");
    reveal_strlit("expires_at");
    reveal_strlit("labels");
    reveal_strlit("issue_aws_credential");
    assert("name"@.len() == 4);
    assert("allowed_pools"@.len() == 13);
    assert("group"@.len() == 5);
    assert("parent"@.len() == 6);
    assert("expires_in"@.len() == 10);
    assert("expires_at"@.len() == 10);
    assert("labels"@.len() == 6);
    assert("issue_aws_credential"@.len() == 20);
    let target = "allowed_pools"@;
    let m0 = seq![("name"@, Doc::Text(mint.name))];
    let m1 = with_some(m0, target, texts_doc(mint.allowed_pools));
    assert(m0.drop_last() =~= Seq::empty());
    reveal_with_fuel(record::hits, 2);
    assert(record::hits(m0, target) =~= Seq::empty());
    if let Some(list) = texts_doc(mint.allowed_pools) {
        assert(m1.drop_last() =~= m0);
        assert(record::hits(m1, target) =~= seq![list]);
    }
    assert forall|members: Seq<(Seq<char>, Doc)>, name: Seq<char>, value: Option<Doc>|
        name != target implies #[trigger] record::hits(with_some(members, name, value), target)
        == record::hits(members, target) by {
        lemma_other(members, name, value, target);
    }
}

proof fn lemma_other(
    members: Seq<(Seq<char>, Doc)>,
    name: Seq<char>,
    value: Option<Doc>,
    target: Seq<char>,
)
    requires
        name != target,
    ensures
        record::hits(with_some(members, name, value), target) == record::hits(members, target),
{
    if let Some(v) = value {
        assert(members.push((name, v)).drop_last() =~= members);
    }
}

proof fn lemma_names_differ()
    ensures
        "name"@ != "allowed_pools"@,
        "name"@ != "group"@,
        "name"@ != "parent"@,
        "name"@ != "expires_in"@,
        "name"@ != "expires_at"@,
        "name"@ != "labels"@,
        "name"@ != "issue_aws_credential"@,
        "allowed_pools"@ != "group"@,
        "allowed_pools"@ != "parent"@,
        "allowed_pools"@ != "expires_in"@,
        "allowed_pools"@ != "expires_at"@,
        "allowed_pools"@ != "labels"@,
        "allowed_pools"@ != "issue_aws_credential"@,
        "group"@ != "parent"@,
        "group"@ != "expires_in"@,
        "group"@ != "expires_at"@,
        "group"@ != "labels"@,
        "group"@ != "issue_aws_credential"@,
        "parent"@ != "expires_in"@,
        "parent"@ != "expires_at"@,
        "parent"@ != "labels"@,
        "parent"@ != "issue_aws_credential"@,
        "expires_in"@ != "expires_at"@,
        "expires_in"@ != "labels"@,
        "expires_in"@ != "issue_aws_credential"@,
        "expires_at"@ != "labels"@,
        "expires_at"@ != "issue_aws_credential"@,
        "labels"@ != "issue_aws_credential"@,
{
    reveal_strlit("name");
    reveal_strlit("allowed_pools");
    reveal_strlit("group");
    reveal_strlit("parent");
    reveal_strlit("expires_in");
    reveal_strlit("expires_at");
    reveal_strlit("labels");
    reveal_strlit("issue_aws_credential");
    assert("name"@.len() == 4);
    assert("allowed_pools"@.len() == 13);
    assert("group"@.len() == 5);
    assert("parent"@.len() == 6);
    assert("expires_in"@.len() == 10);
    assert("expires_at"@.len() == 10);
    assert("labels"@.len() == 6);
    assert("issue_aws_credential"@.len() == 20);
    assert("parent"@[0] != "labels"@[0]);
    assert("expires_in"@[8] != "expires_at"@[8]);
}

proof fn lemma_own(
    members: Seq<(Seq<char>, Doc)>,
    name: Seq<char>,
    value: Option<Doc>,
)
    requires
        record::hits(members, name) == Seq::<Doc>::empty(),
    ensures
        record::hits(with_some(members, name, value), name) == (match value {
            Some(v) => seq![v],
            None => Seq::<Doc>::empty(),
        }),
{
    if let Some(v) = value {
        assert(members.push((name, v)).drop_last() =~= members);
        assert(Seq::<Doc>::empty().push(v) =~= seq![v]);
    }
}

/// The body of a mint request holds what is asked for and nothing else: of each thing that is asked
/// for one member with exactly that value, whatever else is asked for, and of what is not asked for
/// none.
pub proof fn law_mint_body_holds_what_is_asked(mint: Mint)
    ensures
        record::hits(mint.members(), "name"@) == seq![Doc::Text(mint.name)],
        record::hits(mint.members(), "allowed_pools"@) == (match mint.allowed_pools {
            Some(list) => seq![Doc::Array(list.map_values(|s: Seq<char>| Doc::Text(s)))],
            None => Seq::<Doc>::empty(),
        }),
        record::hits(mint.members(), "group"@) == (match mint.group {
            Some(s) => seq![Doc::Text(s)],
            None => Seq::<Doc>::empty(),
        }),
        record::hits(mint.members(), "parent"@) == (match mint.parent {
            Some(s) => seq![Doc::Text(s)],
            None => Seq::<Doc>::empty(),
        }),
        record::hits(mint.members(), "expires_in"@) == (match mint.expires_in {
            Some(s) => seq![Doc::Text(s)],
            None => Seq::<Doc>::empty(),
        }),
        record::hits(mint.members(), "expires_at"@) == (match mint.expires_at {
            Some(n) => seq![Doc::Unsigned(n)],
            None => Seq::<Doc>::empty(),
        }),
        record::hits(mint.members(), "labels"@) == (if mint.labels.len() > 0 {
            seq![
                Doc::Object(
                    mint.labels.map_values(|p: (Seq<char>, Seq<char>)| (p.0, Doc::Text(p.1))),
                ),
            ]
        } else {
            Seq::<Doc>::empty()
        }),
        record::hits(mint.members(), "issue_aws_credential"@) == (if mint.issue_aws_credential {
            seq![Doc::Bool(true)]
        } else {
            Seq::<Doc>::empty()
        }),
{
    lemma_names_differ();
    let m0 = seq![("name"@, Doc::Text(mint.name))];
    assert(m0.drop_last() =~= Seq::empty());
    assert forall|name: Seq<char>| name != "name"@ implies #[trigger] record::hits(m0, name)
        == Seq::<Doc>::empty() by {
        reveal_with_fuel(record::hits, 2);
    }
    assert(record::hits(m0, "name"@) == seq![Doc::Text(mint.name)]) by {
        reveal_with_fuel(record::hits, 2);
        assert(Seq::<Doc>::empty().push(Doc::Text(mint.name)) =~= seq![Doc::Text(mint.name)]);
    }
    assert forall|
        members: Seq<(Seq<char>, Doc)>,
        name: Seq<char>,
        value: Option<Doc>,
        target: Seq<char>,
    |
        name != target implies #[trigger] record::hits(with_some(members, name, value), target)
        == record::hits(members, target) by {
        lemma_other(members, name, value, target);
    }
    assert forall|members: Seq<(Seq<char>, Doc)>, name: Seq<char>, value: Option<Doc>|
        record::hits(members, name) == Seq::<Doc>::empty() implies #[trigger] record::hits(
        with_some(members, name, value),
        name,
    ) == (match value {
        Some(v) => seq![v],
        None => Seq::<Doc>::empty(),
    }) by {
        lemma_own(members, name, value);
    }
}

/// A mint body holds no name twice.
pub proof fn law_mint_body_repeats_nothing(mint: Mint, name: Seq<char>)
    ensures
        record::hits(mint.members(), name).len() <= 1,
{
    law_mint_body_holds_what_is_asked(mint);
    if !mint_name(name) {
        law_mint_body_names(mint);
        lemma_unnamed(mint.members(), name);
    }
}

proof fn lemma_unnamed(members: Seq<(Seq<char>, Doc)>, name: Seq<char>)
    requires
        forall|i: int| 0 <= i < members.len() ==> (#[trigger] members[i]).0 != name,
    ensures
        record::hits(members, name).len() == 0,
    decreases members.len(),
{
    if members.len() > 0 {
        let rest = members.drop_last();
        assert forall|i: int| 0 <= i < rest.len() implies (#[trigger] rest[i]).0 != name by {
            assert(rest[i] == members[i]);
        }
        lemma_unnamed(rest, name);
        assert(members[members.len() - 1].0 != name);
    }
}

} // verus!
