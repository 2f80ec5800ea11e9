//! The list of names that a telephone line checks callers against: the practice's own, and
//! confidential.

use vstd::prelude::*;
use vstd::string::*;

use crate::lists::{selects_just, selects_last};
use crate::error::{not_found, refusal, AppError, Refusal};
use crate::http::diary::meant;
use crate::json::{count_value, empty_object, member_at, put, Json};
use crate::principal::{AuthContext, Id};
use crate::text::{
    as_text, clip, clipped, decimal, filled, joined3, number, opt_text, split, split_on, texts, trim,
    trim_filled, trimmed,
};
use crate::trail::{entry_by, note, record_by, AuditEvent};

verus! {

/// The most names that one request may add.
pub const MAX_PER_REQUEST: usize = 2_000;

/// How much of a name is kept, in characters.
pub const NAME_KEPT: usize = 200;

/// Whether the caller sees an account's list.
pub open spec fn sees(ctx: AuthContext, owner: Id) -> bool {
    ctx.admin || ctx.is(owner)
}

/// The account itself, and an administrator of the platform.
pub fn may_read(ctx: &AuthContext, owner_user_id: Id) -> (r: bool)
    ensures
        r == sees(*ctx, owner_user_id),
{
    ctx.is_admin() || ctx.is_user(owner_user_id)
}

/// To others there is no such list: whether an account keeps one is not their business.
pub fn require(ctx: &AuthContext, owner_user_id: Id) -> (r: Result<(), AppError>)
    ensures
        refusal(r) == (if sees(*ctx, owner_user_id) {
            None
        } else {
            Some(Refusal::NotFound("no such list"@))
        }),
{
    if may_read(ctx, owner_user_id) {
        Ok(())
    } else {
        Err(not_found("no such list"))
    }
}

pub open spec fn reaches(ctx: AuthContext, asked: Option<Id>) -> bool {
    meant(ctx, asked) matches Some(owner) && sees(ctx, owner)
}

/// The account whose list is meant: the one asked for, or the caller's own.
pub fn list_owner(ctx: &AuthContext, asked: Option<Id>) -> (r: Result<Id, AppError>)
    ensures
        match r {
            Ok(owner) => reaches(*ctx, asked) && meant(*ctx, asked) == Some(owner),
            Err(e) => !reaches(*ctx, asked) && e@ == Refusal::NotFound("no such list"@),
        },
{
    let owner = match asked {
        Some(id) => id,
        None => match ctx.user_id {
            Some(id) => id,
            None => {
                return Err(not_found("no such list"));
            },
        },
    };
    match require(ctx, owner) {
        Ok(_) => Ok(owner),
        Err(e) => Err(e),
    }
}

/// A name on a list.
pub struct ConflictName {
    pub id: Id,
    pub owner_user_id: Id,
    pub name: String,
    pub note: Option<String>,
    pub created_epoch: i64,
}

pub struct WhoseList {
    /// The account whose list this is; the caller's own, where none is named.
    pub owner_user_id: Option<Id>,
}

/// The names on somebody's list, in their order.
pub open spec fn names_of(rows: Seq<ConflictName>, owner: Id) -> Seq<ConflictName>
    decreases rows.len(),
{
    if rows.len() == 0 {
        Seq::empty()
    } else {
        let before = names_of(rows.drop_last(), owner);
        if rows.last().owner_user_id == owner {
            before.push(rows.last())
        } else {
            before
        }
    }
}

/// A list of names, for whoever may read it.
pub fn list(ctx: &AuthContext, q: &WhoseList, rows: Vec<ConflictName>) -> (r: Result<
    Vec<ConflictName>,
    AppError,
>)
    ensures
        match r {
            Ok(v) => reaches(*ctx, q.owner_user_id) && (meant(*ctx, q.owner_user_id) matches Some(owner)
                && v@ == names_of(rows@, owner)),
            Err(e) => !reaches(*ctx, q.owner_user_id) && e@ == Refusal::NotFound("no such list"@),
        },
{
    let owner = match list_owner(ctx, q.owner_user_id) {
        Ok(o) => o,
        Err(e) => {
            return Err(e);
        },
    };
    let n: usize = rows.len();
    let mut rest = rows;
    let mut out: Vec<ConflictName> = Vec::new();
    let mut i: usize = 0;
    assert(rows@.take(0) == Seq::<ConflictName>::empty());
    while i < n
        invariant
            n == rows@.len(),
            i <= n,
            rest@ == rows@.skip(i as int),
            out@ == names_of(rows@.take(i as int), owner),
        decreases n - i,
    {
        let row = rest.remove(0);
        assert(row == rows@[i as int]);
        assert(rest@ =~= rows@.skip(i as int + 1));
        assert(rows@.take(i as int + 1).drop_last() == rows@.take(i as int));
        if row.owner_user_id == owner {
            out.push(row);
        }
        i = i + 1;
    }
    assert(rows@.take(rows@.len() as int) == rows@);
    Ok(out)
}

pub struct AddNames {
    pub owner_user_id: Option<Id>,
    /// One name on each line, as pasted.
    pub names: String,
    pub note: Option<String>,
}

/// The texts that are not empty once trimmed, trimmed.
pub open spec fn filled_lines(lines: Seq<Seq<char>>) -> Seq<Seq<char>>
    decreases lines.len(),
{
    if lines.len() == 0 {
        Seq::empty()
    } else {
        let before = filled_lines(lines.drop_last());
        if trimmed(lines.last()).len() == 0 {
            before
        } else {
            before.push(trimmed(lines.last()))
        }
    }
}

/// The names in what was pasted: its lines, trimmed, without the empty ones.
pub fn pasted_names(text: &str) -> (r: Vec<String>)
    ensures
        texts(r@) == filled_lines(split_on(text@, '\n')),
{
    let lines = split(text, '\n');
    let ghost all = texts(lines@);
    let mut out: Vec<String> = Vec::new();
    let mut i: usize = 0;
    assert(all.take(0) == Seq::<Seq<char>>::empty());
    while i < lines.len()
        invariant
            i <= lines@.len(),
            all == texts(lines@),
            texts(out@) == filled_lines(all.take(i as int)),
        decreases lines@.len() - i,
    {
        proof {
            assert(all.take(i as int + 1).drop_last() == all.take(i as int));
            assert(all.take(i as int + 1).last() == lines@[i as int]@);
        }
        let name = trim(lines[i].as_str());
        if !name.as_str().is_empty() {
            let ghost had = out@;
            out.push(name);
            assert(texts(out@) =~= texts(had).push(name@));
        }
        i = i + 1;
    }
    assert(all.take(lines@.len() as int) == all);
    out
}

/// A name and what it is compared by.
pub struct Wanted {
    pub name: String,
    pub normalised: String,
}

pub open spec fn wanted_view(w: Wanted) -> (Seq<char>, Seq<char>) {
    (w.name@, w.normalised@)
}

/// The names that have something to be compared by, as much of each as is kept.
pub open spec fn comparable(pairs: Seq<(Seq<char>, Seq<char>)>) -> Seq<(Seq<char>, Seq<char>)>
    decreases pairs.len(),
{
    if pairs.len() == 0 {
        Seq::empty()
    } else {
        let before = comparable(pairs.drop_last());
        if pairs.last().1.len() == 0 {
            before
        } else {
            before.push((clipped(pairs.last().0, NAME_KEPT as nat), pairs.last().1))
        }
    }
}

pub open spec fn pairs_of(offered: Seq<Wanted>) -> Seq<(Seq<char>, Seq<char>)> {
    offered.map_values(|w: Wanted| wanted_view(w))
}

/// Names to be added to a list.
pub struct Addition {
    pub owner: Id,
    pub note: Option<String>,
    pub wanted: Vec<Wanted>,
}

pub open spec fn add_refusal(ctx: AuthContext, asked: Option<Id>, wanted: nat) -> Option<Refusal> {
    if !reaches(ctx, asked) {
        Some(Refusal::NotFound("no such list"@))
    } else if wanted > MAX_PER_REQUEST {
        Some(
            Refusal::Validation(
                "that is "@ + decimal(wanted) + " names at once; add at most 2000"@,
            ),
        )
    } else {
        None
    }
}

fn keep_comparable(offered: &Vec<Wanted>) -> (r: Vec<Wanted>)
    ensures
        pairs_of(r@) == comparable(pairs_of(offered@)),
        r@.len() <= offered@.len(),
{
    let ghost all = pairs_of(offered@);
    let mut out: Vec<Wanted> = Vec::new();
    let mut i: usize = 0;
    assert(all.take(0) == Seq::<(Seq<char>, Seq<char>)>::empty());
    while i < offered.len()
        invariant
            i <= offered@.len(),
            all == pairs_of(offered@),
            pairs_of(out@) == comparable(all.take(i as int)),
            out@.len() <= i,
        decreases offered@.len() - i,
    {
        proof {
            assert(all.take(i as int + 1).drop_last() == all.take(i as int));
            assert(all.take(i as int + 1).last() == wanted_view(offered@[i as int]));
        }
        let o = &offered[i];
        if !o.normalised.as_str().is_empty() {
            let ghost had = out@;
            let w = Wanted {
                name: clip(o.name.as_str(), NAME_KEPT),
                normalised: o.normalised.clone(),
            };
            out.push(w);
            assert(pairs_of(out@) =~= pairs_of(had).push(wanted_view(w)));
        }
        i = i + 1;
    }
    assert(all.take(offered@.len() as int) == all);
    out
}

/// Adds pasted names, each with what it is compared by. A name that has nothing to be
/// compared by is passed over; a paste of too many is a mistake and refused whole.
pub fn add(ctx: &AuthContext, body: &AddNames, offered: &Vec<Wanted>) -> (r: Result<
    Addition,
    AppError,
>)
    ensures
        refusal(r) == add_refusal(
            *ctx,
            body.owner_user_id,
            comparable(pairs_of(offered@)).len(),
        ),
        r matches Ok(a) ==> {
            &&& meant(*ctx, body.owner_user_id) == Some(a.owner)
            &&& opt_text(a.note) == filled(opt_text(body.note))
            &&& pairs_of(a.wanted@) == comparable(pairs_of(offered@))
        },
{
    let owner = match list_owner(ctx, body.owner_user_id) {
        Ok(o) => o,
        Err(e) => {
            return Err(e);
        },
    };
    let note = trim_filled(as_text(&body.note));
    let wanted = keep_comparable(offered);
    assert(pairs_of(wanted@).len() == wanted@.len());
    if wanted.len() > MAX_PER_REQUEST {
        let n = number(wanted.len() as u64);
        return Err(
            AppError::Validation(
                joined3("that is ", n.as_str(), " names at once; add at most 2000"),
            ),
        );
    }
    Ok(Addition { owner, note, wanted })
}

/// What came of adding names.
#[derive(Clone, Copy, Debug, PartialEq, Eq, Structural)]
pub struct Added {
    pub added: usize,
    pub already_there: usize,
}

/// Counts how many names were new.
pub fn tally(wanted: usize, new: usize) -> (r: Added)
    requires
        new <= wanted,
    ensures
        r.added == new,
        r.added + r.already_there == wanted,
{
    Added { added: new, already_there: wanted - new }
}

/// Takes one name off a list, which has to be there and seen by the caller.
pub fn remove(ctx: &AuthContext, owner: Option<Id>) -> (r: Result<Id, AppError>)
    ensures
        match r {
            Ok(o) => owner == Some(o) && sees(*ctx, o),
            Err(e) => !(owner matches Some(o) && sees(*ctx, o)) && e@ == Refusal::NotFound(
                "no such name"@,
            ),
        },
{
    match owner {
        Some(o) => {
            if may_read(ctx, o) {
                return Ok(o);
            }
        },
        None => {},
    }
    Err(not_found("no such name"))
}

/// No more names are kept than were offered.
pub proof fn no_name_is_made_up(pairs: Seq<(Seq<char>, Seq<char>)>)
    ensures
        comparable(pairs).len() <= pairs.len(),
        forall|i: int| 0 <= i < comparable(pairs).len() ==> (#[trigger] comparable(pairs)[i]).1.len() > 0,
    decreases pairs.len(),
{
    if pairs.len() > 0 {
        no_name_is_made_up(pairs.drop_last());
    }
}

/// What is written down of names that were added: how many, and of how many offered. The names
/// themselves are no part of it.
pub open spec fn added_doc(added: int, offered: int) -> Json {
    Json::Object(
        Map::empty().insert("added"@, Json::Number(added)).insert("offered"@, Json::Number(offered)),
    )
}

pub fn added_event(ctx: &AuthContext, a: &Addition, n: &Added) -> (e: AuditEvent)
    ensures
        e@ == entry_by(*ctx, "telephony.conflict_list.added"@, "conflict_list"@, a.owner).noting(
            added_doc(n.added as int, a.wanted@.len() as int),
        ),
{
    let mut doc = empty_object();
    put(&mut doc, "added", count_value(n.added));
    put(&mut doc, "offered", count_value(a.wanted.len()));
    note(record_by(ctx, "telephony.conflict_list.added", "conflict_list", a.owner), doc)
}

pub fn removed_event(ctx: &AuthContext, owner: Id) -> (e: AuditEvent)
    ensures
        e@ == entry_by(*ctx, "telephony.conflict_list.removed"@, "conflict_list"@, owner),
{
    record_by(ctx, "telephony.conflict_list.removed", "conflict_list", owner)
}

/// The trail counts names and never holds one: whatever it notes of an addition is a number.
pub proof fn names_are_not_in_the_trail(added: int, offered: int, member: Seq<char>)
    requires
        member_at(added_doc(added, offered), member) is Some,
    ensures
        member_at(added_doc(added, offered), member)->0 is Number,
{
}

/// The names on somebody's list are all of theirs, and no other.
pub proof fn names_are_on_their_owners_list(owner: Id, s: Seq<ConflictName>)
    ensures
        names_of(s, owner) == s.filter(|x: ConflictName| x.owner_user_id == owner),
        forall|x: ConflictName|
            #[trigger] names_of(s, owner).contains(x)
                <==> s.contains(x) && (x.owner_user_id == owner),
    decreases s.len(),
{
    let p = |x: ConflictName| x.owner_user_id == owner;
    selects_last(s, p);
    selects_just(s, p);
    if s.len() > 0 {
        names_are_on_their_owners_list(owner, s.drop_last());
    }
    assert(names_of(s, owner) =~= s.filter(p));
    assert forall|x: ConflictName|
        #[trigger] names_of(s, owner).contains(x) <==> s.contains(x) && (x.owner_user_id == owner) by {
        assert(s.filter(p).contains(x) <==> s.contains(x) && p(x));
    }
}

/// Every line with something on it is a name, without the white space round it.
pub proof fn lines_with_something_on_them_count(s: Seq<Seq<char>>)
    ensures
        filled_lines(s)
            == s.filter(|x: Seq<char>| trimmed(x).len() > 0).map_values(|x: Seq<char>| trimmed(x)),
    decreases s.len(),
{
    let p = |x: Seq<char>| trimmed(x).len() > 0;
    selects_last(s, p);
    if s.len() > 0 {
        lines_with_something_on_them_count(s.drop_last());
    }
    assert(filled_lines(s) =~= s.filter(p).map_values(|x: Seq<char>| trimmed(x)));
}

/// Every name of which something is left to compare is kept, up to two hundred characters of it.
pub proof fn names_that_can_be_compared_are_kept(s: Seq<(Seq<char>, Seq<char>)>)
    ensures
        comparable(s)
            == s.filter(|x: (Seq<char>, Seq<char>)| x.1.len() > 0).map_values(
                |x: (Seq<char>, Seq<char>)| (
                    if x.0.len() <= 200 { x.0 } else { x.0.take(200) },
                    x.1,
                )
            ),
    decreases s.len(),
{
    let p = |x: (Seq<char>, Seq<char>)| x.1.len() > 0;
    selects_last(s, p);
    if s.len() > 0 {
        names_that_can_be_compared_are_kept(s.drop_last());
    }
    assert(
        comparable(s) =~= s.filter(p).map_values(
            |x: (Seq<char>, Seq<char>)| (if x.0.len() <= 200 { x.0 } else { x.0.take(200) }, x.1)
        )
    );
}

/// A list of names is reached by its owner and by administrators; one that is not named is one's own.
/// At most two thousand names are added at once.
pub proof fn who_keeps_names(ctx: AuthContext, asked: Option<Id>, owner: Id, wanted: nat)
    ensures
        sees(ctx, owner) <==> ctx.admin || ctx.user_id == Some(owner),
        reaches(ctx, asked)
            <==> (asked matches Some(o) && (ctx.admin || ctx.user_id == Some(o)))
                || (asked is None && ctx.user_id is Some),
        add_refusal(ctx, asked, wanted) is None
            <==> (
                (asked matches Some(o) && (ctx.admin || ctx.user_id == Some(o)))
                    || (asked is None && ctx.user_id is Some)
            )
                && wanted <= 2000,
{
}

/// What stands in `added_doc` under each name; there is no other name in it.
pub proof fn what_added_doc_holds(added: int, offered: int)
    ensures
        member_at(added_doc(added, offered), "added"@) == Some(Json::Number(added)),
        member_at(added_doc(added, offered), "offered"@) == Some(Json::Number(offered)),
        forall|name: Seq<char>|
            #[trigger] member_at(added_doc(added, offered), name) is Some
                ==> name == "added"@ || name == "offered"@,
{
    reveal_strlit("added");
    reveal_strlit("offered");
    assert("added"@.len() != "offered"@.len());
}

/// A name is seen as it was given and as it is compared.
pub proof fn names_are_seen_whole(w: Seq<Wanted>)
    ensures
        pairs_of(w).len() == w.len(),
        forall|i: int|
            0 <= i < w.len() ==> #[trigger] pairs_of(w)[i] == (w[i].name@, w[i].normalised@),
{
}

/// Of several things that are wrong, `add_refusal` tells the first.
pub proof fn add_refusal_tells_the_first_thing(ctx: AuthContext, asked: Option<Id>, wanted: nat)
    ensures
        !reaches(ctx, asked)
            ==> add_refusal(ctx, asked, wanted) == Some(Refusal::NotFound("no such list"@)),
        !(!reaches(ctx, asked)) && wanted > MAX_PER_REQUEST
            ==> add_refusal(ctx, asked, wanted)
                == Some(
                    Refusal::Validation(
                        "that is "@ + decimal(wanted) + " names at once; add at most 2000"@
                    )
                ),
        !(!reaches(ctx, asked)) && !(wanted > MAX_PER_REQUEST)
            ==> add_refusal(ctx, asked, wanted) is None,
{
}

} // verus!
