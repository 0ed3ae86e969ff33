//! An in-memory model of the relational store, carrying the schema rules
//! the database enforces as a second line of defense: unique ids, the
//! unique contact columns, the closed categorical sets, and the date
//! ranges. Every entity service works against this model.

use vstd::prelude::*;

use crate::dates::Date;

verus! {

/// One row of the members table.
#[derive(Debug)]
pub struct MemberRecord {
    pub id: String,
    pub first_name: String,
    pub last_name: String,
    pub email: Option<String>,
    pub contact: String,
    pub gender: String,
    pub date_of_birth: Option<Date>,
    pub residential_address: String,
    pub date_joined: Option<Date>,
    pub department: String,
    pub aux_department: String,
    pub sub_department: String,
    pub added_by: Option<String>,
    pub alias: Option<String>,
    pub member_type: String,
    pub is_blocked: bool,
    pub organization_id: String,
    pub created_at: u64,
    pub updated_at: u64,
}

/// One row of the organization table.
#[derive(Debug)]
pub struct OrganizationRecord {
    pub id: String,
    pub name: String,
    pub email: Option<String>,
    pub contact: String,
    pub address: String,
    pub is_blocked: bool,
    pub created_at: u64,
    pub updated_at: u64,
}

/// One row of the media table.
#[derive(Debug)]
pub struct MediaRecord {
    pub id: String,
    pub owner_id: String,
    pub file_name: Option<String>,
    pub file_path: Option<String>,
    pub mime_type: Option<String>,
    pub file_size: Option<i64>,
    pub media_type: Option<String>,
    pub width: Option<i32>,
    pub height: Option<i32>,
    pub duration: Option<i32>,
    pub is_deleted: bool,
    pub created_at: u64,
    pub updated_at: u64,
}

/// The whole store.
#[derive(Debug)]
pub struct Store {
    pub members: Vec<MemberRecord>,
    pub organizations: Vec<OrganizationRecord>,
    pub media: Vec<MediaRecord>,
}

// ---------------------------------------------------------------------------
// The closed categorical sets of the members schema.
// ---------------------------------------------------------------------------

pub open spec fn not_selected_chars() -> Seq<char> {
    seq!['n', 'o', 't', '_', 's', 'e', 'l', 'e', 'c', 't', 'e', 'd']
}

pub open spec fn is_valid_gender(s: Seq<char>) -> bool {
    ||| s == seq!['m', 'a', 'l', 'e']
    ||| s == seq!['f', 'e', 'm', 'a', 'l', 'e']
}

pub open spec fn is_valid_department(s: Seq<char>) -> bool {
    ||| s == seq!['m', 'e', 'n']
    ||| s == seq!['w', 'o', 'm', 'e', 'n']
    ||| s == seq!['y', 'o', 'u', 't', 'h']
    ||| s == seq!['c', 'h', 'i', 'l', 'd', 'r', 'e', 'n']
    ||| s == not_selected_chars()
}

pub open spec fn is_valid_aux_department(s: Seq<char>) -> bool {
    ||| s == seq!['p', 'a', 't', 'h', 'f', 'i', 'n', 'd', 'e', 'r', 's']
    ||| s == seq!['y', 'o', 'u', 'n', 'g', '_', 's', 'i', 'n', 'g', 'l', 'e', 's']
    ||| s == seq!['r', 'o', 'y', 'a', 'l', '_', 'r', 'a', 'n', 'g', 'e', 'r', 's']
    ||| s == seq!['m', 'i', 's', 's', 'i', 'o', 'n', 'e', 't', 't', 'e', 's']
    ||| s == not_selected_chars()
}

pub open spec fn is_valid_sub_department(s: Seq<char>) -> bool {
    ||| s == seq!['m', 'u', 's', 'i', 'c']
    ||| s == seq!['u', 's', 'h', 'e', 'r', 's']
    ||| s == seq!['o', 'r', 'g', 'a', 'n', 'i', 'z', 'e', 'r', 's']
    ||| s == not_selected_chars()
}

pub open spec fn is_valid_member_type(s: Seq<char>) -> bool {
    ||| s == seq!['m', 'e', 'm', 'b', 'e', 'r']
    ||| s == seq!['p', 'a', 's', 't', 'o', 'r']
    ||| s == not_selected_chars()
}

fn str_is(s: &String, lit: &str) -> (r: bool)
    ensures
        r == (s@ == lit@),
{
    let other = lit.to_owned();
    *s == other
}

pub fn check_gender(s: &String) -> (r: bool)
    ensures
        r == is_valid_gender(s@),
{
    proof {
        reveal_strlit("male");
        reveal_strlit("female");
        assert("male"@ =~= seq!['m', 'a', 'l', 'e']);
        assert("female"@ =~= seq!['f', 'e', 'm', 'a', 'l', 'e']);
    }
    str_is(s, "male") || str_is(s, "female")
}

pub fn check_department(s: &String) -> (r: bool)
    ensures
        r == is_valid_department(s@),
{
    proof {
        reveal_strlit("men");
        reveal_strlit("women");
        reveal_strlit("youth");
        reveal_strlit("children");
        reveal_strlit("not_selected");
        assert("men"@ =~= seq!['m', 'e', 'n']);
        assert("women"@ =~= seq!['w', 'o', 'm', 'e', 'n']);
        assert("youth"@ =~= seq!['y', 'o', 'u', 't', 'h']);
        assert("children"@ =~= seq!['c', 'h', 'i', 'l', 'd', 'r', 'e', 'n']);
        assert("not_selected"@ =~= not_selected_chars());
    }
    str_is(s, "men") || str_is(s, "women") || str_is(s, "youth") || str_is(s, "children") || str_is(
        s,
        "not_selected",
    )
}

pub fn check_aux_department(s: &String) -> (r: bool)
    ensures
        r == is_valid_aux_department(s@),
{
    proof {
        reveal_strlit("pathfinders");
        reveal_strlit("young_singles");
        reveal_strlit("royal_rangers");
        reveal_strlit("missionettes");
        reveal_strlit("not_selected");
        assert("pathfinders"@ =~= seq!['p', 'a', 't', 'h', 'f', 'i', 'n', 'd', 'e', 'r', 's']);
        assert("young_singles"@ =~= seq![
            'y',
            'o',
            'u',
            'n',
            'g',
            '_',
            's',
            'i',
            'n',
            'g',
            'l',
            'e',
            's',
        ]);
        assert("royal_rangers"@ =~= seq![
            'r',
            'o',
            'y',
            'a',
            'l',
            '_',
            'r',
            'a',
            'n',
            'g',
            'e',
            'r',
            's',
        ]);
        assert("missionettes"@ =~= seq!['m', 'i', 's', 's', 'i', 'o', 'n', 'e', 't', 't', 'e', 's']);
        assert("not_selected"@ =~= not_selected_chars());
    }
    str_is(s, "pathfinders") || str_is(s, "young_singles") || str_is(s, "royal_rangers") || str_is(
        s,
        "missionettes",
    ) || str_is(s, "not_selected")
}

pub fn check_sub_department(s: &String) -> (r: bool)
    ensures
        r == is_valid_sub_department(s@),
{
    proof {
        reveal_strlit("music");
        reveal_strlit("ushers");
        reveal_strlit("organizers");
        reveal_strlit("not_selected");
        assert("music"@ =~= seq!['m', 'u', 's', 'i', 'c']);
        assert("ushers"@ =~= seq!['u', 's', 'h', 'e', 'r', 's']);
        assert("organizers"@ =~= seq!['o', 'r', 'g', 'a', 'n', 'i', 'z', 'e', 'r', 's']);
        assert("not_selected"@ =~= not_selected_chars());
    }
    str_is(s, "music") || str_is(s, "ushers") || str_is(s, "organizers") || str_is(
        s,
        "not_selected",
    )
}

pub fn check_member_type(s: &String) -> (r: bool)
    ensures
        r == is_valid_member_type(s@),
{
    proof {
        reveal_strlit("member");
        reveal_strlit("pastor");
        reveal_strlit("not_selected");
        assert("member"@ =~= seq!['m', 'e', 'm', 'b', 'e', 'r']);
        assert("pastor"@ =~= seq!['p', 'a', 's', 't', 'o', 'r']);
        assert("not_selected"@ =~= not_selected_chars());
    }
    str_is(s, "member") || str_is(s, "pastor") || str_is(s, "not_selected")
}

/// The default sentinel for the categorical member fields.
pub fn not_selected() -> (r: String)
    ensures
        r@ == not_selected_chars(),
{
    proof {
        reveal_strlit("not_selected");
        assert("not_selected"@ =~= not_selected_chars());
    }
    "not_selected".to_owned()
}

// ---------------------------------------------------------------------------
// Schema invariants.
// ---------------------------------------------------------------------------

/// A member row the schema admits.
pub open spec fn member_row_wf(m: MemberRecord) -> bool {
    &&& is_valid_gender(m.gender@)
    &&& is_valid_department(m.department@)
    &&& is_valid_aux_department(m.aux_department@)
    &&& is_valid_sub_department(m.sub_department@)
    &&& is_valid_member_type(m.member_type@)
}

pub open spec fn members_wf(ms: Seq<MemberRecord>) -> bool {
    &&& (forall|i: int, j: int|
        0 <= i < j < ms.len() ==> ms[i].id@ != ms[j].id@ && ms[i].contact@ != ms[j].contact@)
    &&& (forall|i: int| 0 <= i < ms.len() ==> member_row_wf(#[trigger] ms[i]))
}

pub open spec fn organizations_wf(os: Seq<OrganizationRecord>) -> bool {
    forall|i: int, j: int|
        0 <= i < j < os.len() ==> os[i].id@ != os[j].id@ && os[i].contact@ != os[j].contact@
}

pub open spec fn media_wf(md: Seq<MediaRecord>) -> bool {
    forall|i: int, j: int| 0 <= i < j < md.len() ==> md[i].id@ != md[j].id@
}

/// The store invariant every service call preserves.
pub open spec fn store_wf(s: Store) -> bool {
    &&& members_wf(s.members@)
    &&& organizations_wf(s.organizations@)
    &&& media_wf(s.media@)
}

// ---------------------------------------------------------------------------
// Occupancy predicates the uniqueness rules are stated with.
// ---------------------------------------------------------------------------

/// Some member row (blocked or not) already holds this contact value.
pub open spec fn member_contact_taken(ms: Seq<MemberRecord>, phone: Seq<char>) -> bool {
    exists|i: int| 0 <= i < ms.len() && (#[trigger] ms[i]).contact@ == phone
}

pub open spec fn member_id_taken(ms: Seq<MemberRecord>, id: Seq<char>) -> bool {
    exists|i: int| 0 <= i < ms.len() && (#[trigger] ms[i]).id@ == id
}

/// Some non-blocked member holds this contact value.
pub open spec fn member_phone_active(ms: Seq<MemberRecord>, phone: Seq<char>) -> bool {
    exists|i: int|
        0 <= i < ms.len() && (#[trigger] ms[i]).contact@ == phone && !ms[i].is_blocked
}

pub open spec fn org_contact_taken(os: Seq<OrganizationRecord>, phone: Seq<char>) -> bool {
    exists|i: int| 0 <= i < os.len() && (#[trigger] os[i]).contact@ == phone
}

pub open spec fn org_id_taken(os: Seq<OrganizationRecord>, id: Seq<char>) -> bool {
    exists|i: int| 0 <= i < os.len() && (#[trigger] os[i]).id@ == id
}

/// Some non-blocked organization holds this contact value.
pub open spec fn org_phone_active(os: Seq<OrganizationRecord>, phone: Seq<char>) -> bool {
    exists|i: int|
        0 <= i < os.len() && (#[trigger] os[i]).contact@ == phone && !os[i].is_blocked
}

pub open spec fn media_id_taken(md: Seq<MediaRecord>, id: Seq<char>) -> bool {
    exists|i: int| 0 <= i < md.len() && (#[trigger] md[i]).id@ == id
}

} // verus!
