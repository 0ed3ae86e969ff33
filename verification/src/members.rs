//! The members service: lookups, creation behind the duplicate-contact
//! rule, sparse partial updates, and the blocked toggle. The store model
//! enforces the schema (unique id and contact, categorical sets, date
//! ranges) as the second line of defense; the handler-level check against
//! non-blocked rows is the first.

use vstd::prelude::*;
use vstd::string::StringExecFns;

use crate::claims::Claims;
use crate::dates::Date;
use crate::dates::date_le;
use crate::dates::spec_date_le;
use crate::error::Error;
use crate::error::is_duplicate_resource;
use crate::error::is_persistence_failure;
use crate::error::is_validation_failure;
use crate::error::new_error;
use crate::models::AddMemberDto;
use crate::models::AddMemberModel;
use crate::models::UpdateMemberDto;
use crate::models::opt_str_view;
use crate::store::MemberRecord;
use crate::store::Store;
use crate::store::check_gender;
use crate::store::check_department;
use crate::store::check_aux_department;
use crate::store::check_sub_department;
use crate::store::check_member_type;
use crate::store::is_valid_gender;
use crate::store::is_valid_department;
use crate::store::is_valid_aux_department;
use crate::store::is_valid_sub_department;
use crate::store::is_valid_member_type;
use crate::store::member_contact_taken;
use crate::store::member_id_taken;
use crate::store::member_phone_active;
use crate::store::member_row_wf;
use crate::store::not_selected;
use crate::store::not_selected_chars;
use crate::store::org_id_taken;
use crate::store::store_wf;
use crate::validator;
use crate::validator::is_nonblank;
use crate::validator::is_uuid_chars;
use crate::validator::is_valid_date_string;
use crate::validator::is_valid_email;
use crate::validator::is_valid_phone;
use crate::validator::spec_date_of;

verus! {

/// The view of an optional string field, when present.
pub open spec fn opt_view(o: Option<String>) -> Option<Seq<char>> {
    match o {
        Some(s) => Some(s@),
        None => None,
    }
}

// ---------------------------------------------------------------------------
// Lookups.
// ---------------------------------------------------------------------------

/// Index of a non-blocked member holding this contact, if any.
pub fn get_member_by_phone(store: &Store, phone: &String) -> (r: Option<usize>)
    ensures
        (match r {
            Some(i) => i < store.members@.len() && store.members@[i as int].contact@ == phone@
                && !store.members@[i as int].is_blocked,
            None => !member_phone_active(store.members@, phone@),
        }),
{
    let mut i: usize = 0;
    while i < store.members.len()
        invariant
            i <= store.members@.len(),
            forall|j: int|
                0 <= j < i ==> !((#[trigger] store.members@[j]).contact@ == phone@
                    && !store.members@[j].is_blocked),
        decreases store.members@.len() - i,
    {
        if store.members[i].contact == *phone && !store.members[i].is_blocked {
            return Some(i);
        }
        i = i + 1;
    }
    None
}

/// Index of the member with this id, blocked or not, if any.
pub fn get_member_by_id(store: &Store, id: &String) -> (r: Option<usize>)
    ensures
        (match r {
            Some(i) => i < store.members@.len() && store.members@[i as int].id@ == id@,
            None => !member_id_taken(store.members@, id@),
        }),
{
    let mut i: usize = 0;
    while i < store.members.len()
        invariant
            i <= store.members@.len(),
            forall|j: int| 0 <= j < i ==> (#[trigger] store.members@[j]).id@ != id@,
        decreases store.members@.len() - i,
    {
        if store.members[i].id == *id {
            return Some(i);
        }
        i = i + 1;
    }
    None
}

/// Whether any member row at all holds this contact.
fn member_contact_index(store: &Store, phone: &String) -> (r: Option<usize>)
    ensures
        (match r {
            Some(i) => i < store.members@.len() && store.members@[i as int].contact@ == phone@,
            None => !member_contact_taken(store.members@, phone@),
        }),
{
    let mut i: usize = 0;
    while i < store.members.len()
        invariant
            i <= store.members@.len(),
            forall|j: int| 0 <= j < i ==> (#[trigger] store.members@[j]).contact@ != phone@,
        decreases store.members@.len() - i,
    {
        if store.members[i].contact == *phone {
            return Some(i);
        }
        i = i + 1;
    }
    None
}

/// Whether any organization row holds this id.
fn org_index_by_id(store: &Store, id: &String) -> (r: Option<usize>)
    ensures
        (match r {
            Some(i) => i < store.organizations@.len() && store.organizations@[i as int].id@ == id@,
            None => !org_id_taken(store.organizations@, id@),
        }),
{
    let mut i: usize = 0;
    while i < store.organizations.len()
        invariant
            i <= store.organizations@.len(),
            forall|j: int| 0 <= j < i ==> (#[trigger] store.organizations@[j]).id@ != id@,
        decreases store.organizations@.len() - i,
    {
        if store.organizations[i].id == *id {
            return Some(i);
        }
        i = i + 1;
    }
    None
}

/// All member rows, as the listing endpoint returns them.
pub fn get_all_members(store: &Store) -> (r: &Vec<MemberRecord>)
    ensures
        r@ == store.members@,
{
    &store.members
}

// ---------------------------------------------------------------------------
// Creation.
// ---------------------------------------------------------------------------

/// What an accepted insert writes: the payload's fields, the schema
/// defaults for the rest, and both timestamps set to `now`.
pub open spec fn spec_inserted_member(
    m: MemberRecord,
    data: AddMemberDto,
    id: Seq<char>,
    now: u64,
) -> bool {
    &&& m.id@ == id
    &&& m.first_name@ == data.first_name@
    &&& m.last_name@ == data.last_name@
    &&& opt_view(m.email) == opt_view(data.email)
    &&& m.contact@ == data.phone@
    &&& m.gender@ == data.gender@
    &&& m.date_of_birth is None
    &&& m.residential_address@ == data.address@
    &&& m.date_joined == data.date_joined
    &&& m.department@ == not_selected_chars()
    &&& m.aux_department@ == not_selected_chars()
    &&& m.sub_department@ == not_selected_chars()
    &&& m.added_by is None
    &&& m.alias is None
    &&& m.member_type@ == not_selected_chars()
    &&& m.is_blocked == false
    &&& m.organization_id@ == data.organization_id@
    &&& m.created_at == now
    &&& m.updated_at == now
}

/// The schema conditions an insert must meet.
pub open spec fn spec_member_insert_ok(s: Store, data: AddMemberDto, id: Seq<char>, today: Date) -> bool {
    &&& !member_id_taken(s.members@, id)
    &&& !member_contact_taken(s.members@, data.phone@)
    &&& org_id_taken(s.organizations@, data.organization_id@)
    &&& is_valid_gender(data.gender@)
    &&& (match data.date_joined {
        Some(d) => spec_date_le(d, today),
        None => true,
    })
}

/// Inserts a member row. The store enforces its schema here: unique id
/// and contact, an existing owning organization, a valid gender, and a
/// join date no later than today; a violation is reported as the generic
/// persistence failure the database driver would produce.
pub fn save_member(store: &mut Store, data: AddMemberDto, id: String, now: u64, today: Date) -> (r:
    Result<String, Error>)
    requires
        store_wf(*old(store)),
    ensures
        store_wf(*final(store)),
        final(store).organizations@ == old(store).organizations@,
        final(store).media@ == old(store).media@,
        (match r {
            Ok(rid) => {
                &&& rid@ == id@
                &&& spec_member_insert_ok(*old(store), data, id@, today)
                &&& final(store).members@.len() == old(store).members@.len() + 1
                &&& final(store).members@.subrange(0, old(store).members@.len() as int) == old(
                    store,
                ).members@
                &&& spec_inserted_member(final(store).members@.last(), data, id@, now)
            },
            Err(e) => {
                &&& final(store).members@ == old(store).members@
                &&& is_persistence_failure(e)
                &&& !spec_member_insert_ok(*old(store), data, id@, today)
                &&& (if member_contact_taken(old(store).members@, data.phone@) {
                    e.message@ == "Duplicate member contact"@
                } else if member_id_taken(old(store).members@, id@) {
                    e.message@ == "Duplicate member id"@
                } else if !org_id_taken(old(store).organizations@, data.organization_id@) {
                    e.message@ == "Organization does not exist"@
                } else if !is_valid_gender(data.gender@) {
                    e.message@ == "Invalid gender"@
                } else {
                    e.message@ == "Date joined is in the future"@
                })
            },
        }),
{
    if member_contact_index(store, &data.phone).is_some() {
        return Err(new_error(2001, "Duplicate member contact", 500));
    }
    if get_member_by_id(store, &id).is_some() {
        return Err(new_error(2001, "Duplicate member id", 500));
    }
    if org_index_by_id(store, &data.organization_id).is_none() {
        return Err(new_error(2001, "Organization does not exist", 500));
    }
    if !check_gender(&data.gender) {
        return Err(new_error(2001, "Invalid gender", 500));
    }
    match &data.date_joined {
        Some(d) => {
            if !date_le(d, &today) {
                return Err(new_error(2001, "Date joined is in the future", 500));
            }
        },
        None => {},
    }
    let rec = MemberRecord {
        id: id.clone(),
        first_name: data.first_name,
        last_name: data.last_name,
        email: data.email,
        contact: data.phone,
        gender: data.gender,
        date_of_birth: None,
        residential_address: data.address,
        date_joined: data.date_joined,
        department: not_selected(),
        aux_department: not_selected(),
        sub_department: not_selected(),
        added_by: None,
        alias: None,
        member_type: not_selected(),
        is_blocked: false,
        organization_id: data.organization_id,
        created_at: now,
        updated_at: now,
    };
    let ghost ms0 = old(store).members@;
    store.members.push(rec);
    proof {
        let ms1 = store.members@;
        assert(ms1.subrange(0, ms0.len() as int) =~= ms0);
        assert forall|i: int, j: int| 0 <= i < j < ms1.len() implies ms1[i].id@ != ms1[j].id@
            && ms1[i].contact@ != ms1[j].contact@ by {
            if j < ms0.len() {
                assert(ms1[i] == ms0[i] && ms1[j] == ms0[j]);
            } else {
                assert(ms1[i] == ms0[i]);
            }
        }
        assert(is_valid_department(not_selected_chars()));
        assert forall|i: int| 0 <= i < ms1.len() implies member_row_wf(#[trigger] ms1[i]) by {
            if i < ms0.len() {
                assert(ms1[i] == ms0[i]);
            }
        }
    }
    Ok(id)
}

// ---------------------------------------------------------------------------
// Partial update.
// ---------------------------------------------------------------------------

/// The sparse-patch semantics: present fields replace, absent fields keep
/// their prior values; the modification timestamp is stamped
/// unconditionally, and everything else is untouched.
pub open spec fn spec_updated_member(
    u: MemberRecord,
    o: MemberRecord,
    dto: UpdateMemberDto,
    now: u64,
) -> bool {
    &&& u.id@ == o.id@
    &&& u.first_name@ == (match dto.first_name {
        Some(v) => v@,
        None => o.first_name@,
    })
    &&& u.last_name@ == (match dto.last_name {
        Some(v) => v@,
        None => o.last_name@,
    })
    &&& opt_view(u.email) == (match dto.email {
        Some(v) => Some(v@),
        None => opt_view(o.email),
    })
    &&& u.contact@ == (match dto.phone {
        Some(v) => v@,
        None => o.contact@,
    })
    &&& u.residential_address@ == (match dto.address {
        Some(v) => v@,
        None => o.residential_address@,
    })
    &&& u.gender@ == (match dto.gender {
        Some(v) => v@,
        None => o.gender@,
    })
    &&& u.department@ == (match dto.department {
        Some(v) => v@,
        None => o.department@,
    })
    &&& u.aux_department@ == (match dto.aux_department {
        Some(v) => v@,
        None => o.aux_department@,
    })
    &&& u.sub_department@ == (match dto.sub_department {
        Some(v) => v@,
        None => o.sub_department@,
    })
    &&& u.member_type@ == (match dto.member_type {
        Some(v) => v@,
        None => o.member_type@,
    })
    &&& u.date_of_birth == o.date_of_birth
    &&& u.date_joined == o.date_joined
    &&& opt_view(u.added_by) == opt_view(o.added_by)
    &&& opt_view(u.alias) == opt_view(o.alias)
    &&& u.is_blocked == o.is_blocked
    &&& u.organization_id@ == o.organization_id@
    &&& u.created_at == o.created_at
    &&& u.updated_at == now
}

/// The member row an update would write, before the schema checks.
fn build_updated_member(o: &MemberRecord, dto: UpdateMemberDto, now: u64) -> (u: MemberRecord)
    ensures
        spec_updated_member(u, *o, dto, now),
{
    MemberRecord {
        id: o.id.clone(),
        first_name: match dto.first_name {
            Some(v) => v,
            None => o.first_name.clone(),
        },
        last_name: match dto.last_name {
            Some(v) => v,
            None => o.last_name.clone(),
        },
        email: match dto.email {
            Some(v) => Some(v),
            None => o.email.clone(),
        },
        contact: match dto.phone {
            Some(v) => v,
            None => o.contact.clone(),
        },
        gender: match dto.gender {
            Some(v) => v,
            None => o.gender.clone(),
        },
        date_of_birth: o.date_of_birth,
        residential_address: match dto.address {
            Some(v) => v,
            None => o.residential_address.clone(),
        },
        date_joined: o.date_joined,
        department: match dto.department {
            Some(v) => v,
            None => o.department.clone(),
        },
        aux_department: match dto.aux_department {
            Some(v) => v,
            None => o.aux_department.clone(),
        },
        sub_department: match dto.sub_department {
            Some(v) => v,
            None => o.sub_department.clone(),
        },
        added_by: o.added_by.clone(),
        alias: o.alias.clone(),
        member_type: match dto.member_type {
            Some(v) => v,
            None => o.member_type.clone(),
        },
        is_blocked: o.is_blocked,
        organization_id: o.organization_id.clone(),
        created_at: o.created_at,
        updated_at: now,
    }
}

/// The schema conditions an update must meet at row `i`.
pub open spec fn spec_member_update_ok(s: Store, i: int, dto: UpdateMemberDto, now: u64) -> bool {
    &&& (match dto.phone {
        Some(p) => forall|j: int|
            0 <= j < s.members@.len() && j != i ==> (#[trigger] s.members@[j]).contact@ != p@,
        None => true,
    })
    &&& (match dto.gender {
        Some(g) => is_valid_gender(g@),
        None => true,
    })
    &&& (match dto.department {
        Some(d) => is_valid_department(d@),
        None => true,
    })
    &&& (match dto.aux_department {
        Some(d) => is_valid_aux_department(d@),
        None => true,
    })
    &&& (match dto.sub_department {
        Some(d) => is_valid_sub_department(d@),
        None => true,
    })
    &&& (match dto.member_type {
        Some(d) => is_valid_member_type(d@),
        None => true,
    })
}

/// A non-blocked member row holds this id.
pub open spec fn spec_active_member(s: Store, id: Seq<char>) -> bool {
    exists|i: int|
        0 <= i < s.members@.len() && (#[trigger] s.members@[i]).id@ == id
            && !s.members@[i].is_blocked
}

/// The patch names a contact some other row already holds.
pub open spec fn spec_patch_phone_conflict(s: Store, id: Seq<char>, dto: UpdateMemberDto) -> bool {
    match dto.phone {
        Some(p) => exists|i: int, j: int|
            0 <= i < s.members@.len() && (#[trigger] s.members@[i]).id@ == id
                && !s.members@[i].is_blocked && 0 <= j < s.members@.len() && j != i && (
            #[trigger] s.members@[j]).contact@ == p@,
        None => false,
    }
}

/// There is a non-blocked row with this id that the patch may lawfully
/// be applied to.
pub open spec fn spec_member_update_applicable(
    s: Store,
    id: Seq<char>,
    dto: UpdateMemberDto,
    now: u64,
) -> bool {
    exists|i: int|
        0 <= i < s.members@.len() && (#[trigger] s.members@[i]).id@ == id
            && !s.members@[i].is_blocked && spec_member_update_ok(s, i, dto, now)
}

/// Applies a sparse patch to the non-blocked member with this id: only
/// the present fields change, and the modification timestamp is stamped
/// unconditionally. Fails with the store's generic failure when the row
/// is absent or blocked, or when the patch violates the schema.
pub fn update_member(store: &mut Store, id: &String, member: UpdateMemberDto, now: u64) -> (r:
    Result<usize, Error>)
    requires
        store_wf(*old(store)),
    ensures
        store_wf(*final(store)),
        final(store).organizations@ == old(store).organizations@,
        final(store).media@ == old(store).media@,
        (match r {
            Ok(i) => {
                &&& i < old(store).members@.len()
                &&& old(store).members@[i as int].id@ == id@
                &&& !old(store).members@[i as int].is_blocked
                &&& spec_member_update_ok(*old(store), i as int, member, now)
                &&& final(store).members@.len() == old(store).members@.len()
                &&& (forall|j: int|
                    0 <= j < old(store).members@.len() && j != i ==> final(store).members@[j]
                        == old(store).members@[j])
                &&& spec_updated_member(
                    final(store).members@[i as int],
                    old(store).members@[i as int],
                    member,
                    now,
                )
            },
            Err(e) => {
                &&& final(store).members@ == old(store).members@
                &&& is_persistence_failure(e)
                &&& !spec_member_update_applicable(*old(store), id@, member, now)
                &&& (if !spec_active_member(*old(store), id@) {
                    e.message@ == "Member not found"@
                } else if spec_patch_phone_conflict(*old(store), id@, member) {
                    e.message@ == "Duplicate member contact"@
                } else if (match member.gender {
                    Some(g) => !is_valid_gender(g@),
                    None => false,
                }) {
                    e.message@ == "Invalid gender"@
                } else if (match member.department {
                    Some(d) => !is_valid_department(d@),
                    None => false,
                }) {
                    e.message@ == "Invalid department"@
                } else if (match member.aux_department {
                    Some(d) => !is_valid_aux_department(d@),
                    None => false,
                }) {
                    e.message@ == "Invalid auxiliary department"@
                } else if (match member.sub_department {
                    Some(d) => !is_valid_sub_department(d@),
                    None => false,
                }) {
                    e.message@ == "Invalid sub-department"@
                } else {
                    e.message@ == "Invalid member type"@
                })
            },
        }),
{
    let i = match find_active_member_by_id(store, id) {
        Some(i) => i,
        None => {
            return Err(new_error(2001, "Member not found", 500));
        },
    };
    match &member.phone {
        Some(p) => {
            if member_contact_taken_except(store, p, i) {
                proof {
                    lemma_update_row_is_unique(*old(store), id@, member, now, i as int);
                    assert(spec_active_member(*old(store), id@));
                    let j = choose|j: int|
                        0 <= j < old(store).members@.len() && j != i && (#[trigger] old(
                            store,
                        ).members@[j]).contact@ == p@;
                    assert(old(store).members@[j].contact@ == p@);
                    assert(spec_patch_phone_conflict(*old(store), id@, member));
                }
                return Err(new_error(2001, "Duplicate member contact", 500));
            }
        },
        None => {},
    }
    proof {
        assert(spec_active_member(*old(store), id@));
        lemma_no_patch_phone_conflict(*old(store), id@, member, i as int);
    }
    match &member.gender {
        Some(g) => {
            if !check_gender(g) {
                proof {
                    lemma_update_row_is_unique(*old(store), id@, member, now, i as int);
                }
                return Err(new_error(2001, "Invalid gender", 500));
            }
        },
        None => {},
    }
    match &member.department {
        Some(d) => {
            if !check_department(d) {
                proof {
                    lemma_update_row_is_unique(*old(store), id@, member, now, i as int);
                }
                return Err(new_error(2001, "Invalid department", 500));
            }
        },
        None => {},
    }
    match &member.aux_department {
        Some(d) => {
            if !check_aux_department(d) {
                proof {
                    lemma_update_row_is_unique(*old(store), id@, member, now, i as int);
                }
                return Err(new_error(2001, "Invalid auxiliary department", 500));
            }
        },
        None => {},
    }
    match &member.sub_department {
        Some(d) => {
            if !check_sub_department(d) {
                proof {
                    lemma_update_row_is_unique(*old(store), id@, member, now, i as int);
                }
                return Err(new_error(2001, "Invalid sub-department", 500));
            }
        },
        None => {},
    }
    match &member.member_type {
        Some(d) => {
            if !check_member_type(d) {
                proof {
                    lemma_update_row_is_unique(*old(store), id@, member, now, i as int);
                }
                return Err(new_error(2001, "Invalid member type", 500));
            }
        },
        None => {},
    }
    let updated = build_updated_member(&store.members[i], member, now);
    let ghost ms0 = old(store).members@;
    store.members[i] = updated;
    proof {
        let ms1 = store.members@;
        assert forall|a: int, b: int| 0 <= a < b < ms1.len() implies ms1[a].id@ != ms1[b].id@
            && ms1[a].contact@ != ms1[b].contact@ by {
            if a != i && b != i {
                assert(ms1[a] == ms0[a] && ms1[b] == ms0[b]);
            }
        }
        assert forall|a: int| 0 <= a < ms1.len() implies member_row_wf(#[trigger] ms1[a]) by {
            if a != i {
                assert(ms1[a] == ms0[a]);
            }
        }
    }
    Ok(i)
}

/// With unique ids, a failing check at the one matching row refutes the
/// whole patch.
proof fn lemma_update_row_is_unique(
    s: Store,
    id: Seq<char>,
    dto: UpdateMemberDto,
    now: u64,
    i: int,
)
    requires
        store_wf(s),
        0 <= i < s.members@.len(),
        s.members@[i].id@ == id,
        !spec_member_update_ok(s, i, dto, now),
    ensures
        !spec_member_update_applicable(s, id, dto, now),
{
    assert forall|i2: int|
        !(0 <= i2 < s.members@.len() && (#[trigger] s.members@[i2]).id@ == id && !s.members@[i2].is_blocked
            && spec_member_update_ok(s, i2, dto, now)) by {
        if 0 <= i2 < s.members@.len() && s.members@[i2].id@ == id {
            if i2 < i {
                assert(s.members@[i2].id@ != s.members@[i].id@);
            } else if i2 > i {
                assert(s.members@[i].id@ != s.members@[i2].id@);
            }
        }
    }
}

/// With unique ids, a passed uniqueness check at the one active row
/// refutes any phone conflict.
proof fn lemma_no_patch_phone_conflict(s: Store, id: Seq<char>, dto: UpdateMemberDto, i: int)
    requires
        store_wf(s),
        0 <= i < s.members@.len(),
        s.members@[i].id@ == id,
        !s.members@[i].is_blocked,
        (match dto.phone {
            Some(p) => forall|j: int|
                0 <= j < s.members@.len() && j != i ==> (#[trigger] s.members@[j]).contact@ != p@,
            None => true,
        }),
    ensures
        !spec_patch_phone_conflict(s, id, dto),
{
    match dto.phone {
        Some(p) => {
            assert forall|i2: int, j2: int|
                !(0 <= i2 < s.members@.len() && (#[trigger] s.members@[i2]).id@ == id
                    && !s.members@[i2].is_blocked && 0 <= j2 < s.members@.len() && j2 != i2 && (
                #[trigger] s.members@[j2]).contact@ == p@) by {
                if 0 <= i2 < s.members@.len() && s.members@[i2].id@ == id {
                    if i2 < i {
                        assert(s.members@[i2].id@ != s.members@[i].id@);
                    } else if i2 > i {
                        assert(s.members@[i].id@ != s.members@[i2].id@);
                    }
                }
            }
        },
        None => {},
    }
}

/// Index of the non-blocked member with this id, if any.
fn find_active_member_by_id(store: &Store, id: &String) -> (r: Option<usize>)
    ensures
        (match r {
            Some(i) => i < store.members@.len() && store.members@[i as int].id@ == id@ && !store
                .members@[i as int].is_blocked,
            None => forall|j: int|
                0 <= j < store.members@.len() ==> !((#[trigger] store.members@[j]).id@ == id@
                    && !store.members@[j].is_blocked),
        }),
{
    let mut i: usize = 0;
    while i < store.members.len()
        invariant
            i <= store.members@.len(),
            forall|j: int|
                0 <= j < i ==> !((#[trigger] store.members@[j]).id@ == id@
                    && !store.members@[j].is_blocked),
        decreases store.members@.len() - i,
    {
        if store.members[i].id == *id && !store.members[i].is_blocked {
            return Some(i);
        }
        i = i + 1;
    }
    None
}

/// Whether another row than `except` holds this contact.
fn member_contact_taken_except(store: &Store, phone: &String, except: usize) -> (r: bool)
    ensures
        r == exists|j: int|
            0 <= j < store.members@.len() && j != except && (#[trigger] store.members@[j]).contact@
                == phone@,
{
    let mut i: usize = 0;
    while i < store.members.len()
        invariant
            i <= store.members@.len(),
            forall|j: int|
                0 <= j < i && j != except ==> (#[trigger] store.members@[j]).contact@ != phone@,
        decreases store.members@.len() - i,
    {
        if i != except && store.members[i].contact == *phone {
            return true;
        }
        i = i + 1;
    }
    false
}

// ---------------------------------------------------------------------------
// Blocked toggle.
// ---------------------------------------------------------------------------

/// The complement toggle: only the flag and the modification timestamp
/// change.
pub open spec fn spec_toggled_member(u: MemberRecord, o: MemberRecord, now: u64) -> bool {
    &&& u.id@ == o.id@
    &&& u.first_name@ == o.first_name@
    &&& u.last_name@ == o.last_name@
    &&& opt_view(u.email) == opt_view(o.email)
    &&& u.contact@ == o.contact@
    &&& u.gender@ == o.gender@
    &&& u.date_of_birth == o.date_of_birth
    &&& u.residential_address@ == o.residential_address@
    &&& u.date_joined == o.date_joined
    &&& u.department@ == o.department@
    &&& u.aux_department@ == o.aux_department@
    &&& u.sub_department@ == o.sub_department@
    &&& opt_view(u.added_by) == opt_view(o.added_by)
    &&& opt_view(u.alias) == opt_view(o.alias)
    &&& u.member_type@ == o.member_type@
    &&& u.is_blocked == !o.is_blocked
    &&& u.organization_id@ == o.organization_id@
    &&& u.created_at == o.created_at
    &&& u.updated_at == now
}

/// Flips the blocked flag of the member with this id, verbatim, and
/// stamps the modification time.
pub fn toggle_member_blocked(store: &mut Store, id: &String, now: u64) -> (r: Result<(), Error>)
    requires
        store_wf(*old(store)),
    ensures
        store_wf(*final(store)),
        final(store).organizations@ == old(store).organizations@,
        final(store).media@ == old(store).media@,
        (match r {
            Ok(_) => {
                &&& member_id_taken(old(store).members@, id@)
                &&& final(store).members@.len() == old(store).members@.len()
                &&& exists|i: int|
                    0 <= i < old(store).members@.len() && (#[trigger] old(
                        store,
                    ).members@[i]).id@ == id@ && spec_toggled_member(
                        final(store).members@[i],
                        old(store).members@[i],
                        now,
                    ) && (forall|j: int|
                        0 <= j < old(store).members@.len() && j != i ==> final(store).members@[j]
                            == old(store).members@[j])
            },
            Err(e) => {
                &&& final(store).members@ == old(store).members@
                &&& is_persistence_failure(e)
                &&& !member_id_taken(old(store).members@, id@)
                &&& e.message@ == "Member not found"@
            },
        }),
{
    let i = match get_member_by_id(store, id) {
        Some(i) => i,
        None => {
            return Err(new_error(2001, "Member not found", 500));
        },
    };
    let o = &store.members[i];
    let updated = MemberRecord {
        id: o.id.clone(),
        first_name: o.first_name.clone(),
        last_name: o.last_name.clone(),
        email: o.email.clone(),
        contact: o.contact.clone(),
        gender: o.gender.clone(),
        date_of_birth: o.date_of_birth,
        residential_address: o.residential_address.clone(),
        date_joined: o.date_joined,
        department: o.department.clone(),
        aux_department: o.aux_department.clone(),
        sub_department: o.sub_department.clone(),
        added_by: o.added_by.clone(),
        alias: o.alias.clone(),
        member_type: o.member_type.clone(),
        is_blocked: !o.is_blocked,
        organization_id: o.organization_id.clone(),
        created_at: o.created_at,
        updated_at: now,
    };
    let ghost ms0 = old(store).members@;
    store.members[i] = updated;
    proof {
        let ms1 = store.members@;
        assert forall|a: int, b: int| 0 <= a < b < ms1.len() implies ms1[a].id@ != ms1[b].id@
            && ms1[a].contact@ != ms1[b].contact@ by {
            if a != i && b != i {
                assert(ms1[a] == ms0[a] && ms1[b] == ms0[b]);
            }
        }
        assert forall|a: int| 0 <= a < ms1.len() implies member_row_wf(#[trigger] ms1[a]) by {
            if a != i {
                assert(ms1[a] == ms0[a]);
            }
        }
    }
    Ok(())
}

// ---------------------------------------------------------------------------
// The member-creation handler core.
// ---------------------------------------------------------------------------

/// Every field rule the creation handler demands, in its own order.
pub open spec fn spec_member_payload_valid(p: AddMemberModel) -> bool {
    &&& is_nonblank(p.first_name@)
    &&& is_nonblank(p.last_name@)
    &&& is_valid_email(opt_str_view(p.email))
    &&& is_valid_phone(p.phone@)
    &&& is_nonblank(p.address@)
    &&& is_nonblank(p.gender@)
    &&& is_valid_date_string(opt_str_view(p.date_joined))
}

/// The row a creation request writes, stated over the raw payload.
pub open spec fn spec_member_from_payload(
    m: MemberRecord,
    p: AddMemberModel,
    tenant: Seq<char>,
    id: Seq<char>,
    now: u64,
) -> bool {
    &&& m.id@ == id
    &&& m.first_name@ == p.first_name@
    &&& m.last_name@ == p.last_name@
    &&& opt_view(m.email) == Some(opt_str_view(p.email))
    &&& m.contact@ == p.phone@
    &&& m.gender@ == p.gender@
    &&& m.date_of_birth is None
    &&& m.residential_address@ == p.address@
    &&& m.date_joined == Some(spec_date_of(opt_str_view(p.date_joined)))
    &&& m.department@ == not_selected_chars()
    &&& m.aux_department@ == not_selected_chars()
    &&& m.sub_department@ == not_selected_chars()
    &&& m.member_type@ == not_selected_chars()
    &&& m.is_blocked == false
    &&& m.organization_id@ == tenant
    &&& m.created_at == now
    &&& m.updated_at == now
}

/// The member-creation handler, for authenticated callers: validates every field
/// (fail-fast, in order), rejects a contact already held by a non-blocked
/// member, and inserts the row under the caller's tenant id. The claim's
/// opaque tenant id must be a canonical UUID: anything else was a
/// programming error upstream and is outside this handler's domain.
pub fn add_member(
    store: &mut Store,
    claims: &Claims,
    payload: &AddMemberModel,
    new_id: String,
    now: u64,
    today: Date,
) -> (r: Result<String, Error>)
    requires
        store_wf(*old(store)),
        is_uuid_chars(claims._id@),
    ensures
        store_wf(*final(store)),
        final(store).organizations@ == old(store).organizations@,
        final(store).media@ == old(store).media@,
        (match r {
            Ok(rid) => {
                &&& rid@ == new_id@
                &&& spec_member_payload_valid(*payload)
                &&& !member_phone_active(old(store).members@, payload.phone@)
                &&& !member_contact_taken(old(store).members@, payload.phone@)
                &&& !member_id_taken(old(store).members@, new_id@)
                &&& org_id_taken(old(store).organizations@, claims._id@)
                &&& final(store).members@.len() == old(store).members@.len() + 1
                &&& final(store).members@.subrange(0, old(store).members@.len() as int) == old(
                    store,
                ).members@
                &&& spec_member_from_payload(
                    final(store).members@.last(),
                    *payload,
                    claims._id@,
                    new_id@,
                    now,
                )
            },
            Err(e) => {
                &&& final(store).members@ == old(store).members@
                &&& (if !is_nonblank(payload.first_name@) {
                    is_validation_failure(e) && e.message@ == "First Name"@ + " is required"@
                } else if !is_nonblank(payload.last_name@) {
                    is_validation_failure(e) && e.message@ == "Last Name"@ + " is required"@
                } else if !is_valid_email(opt_str_view(payload.email)) {
                    is_validation_failure(e) && e.message@ == "Email"@ + " validation failed"@
                } else if !is_valid_phone(payload.phone@) {
                    is_validation_failure(e) && e.message@ == "Phone"@ + " validation failed"@
                } else if !is_nonblank(payload.address@) {
                    is_validation_failure(e) && e.message@ == "Address"@ + " is required"@
                } else if !is_nonblank(payload.gender@) {
                    is_validation_failure(e) && e.message@ == "Gender"@ + " is required"@
                } else if !is_valid_date_string(opt_str_view(payload.date_joined)) {
                    is_validation_failure(e) && e.message@ == "Date Joined"@
                        + " validation failed"@
                } else if member_phone_active(old(store).members@, payload.phone@) {
                    is_duplicate_resource(e) && e.message@ == "Member With Contact "@
                        + payload.phone@ + " Exists"@
                } else {
                    is_persistence_failure(e) && (member_id_taken(old(store).members@, new_id@)
                        || member_contact_taken(old(store).members@, payload.phone@)
                        || !org_id_taken(old(store).organizations@, claims._id@)
                        || !is_valid_gender(payload.gender@)
                        || !spec_date_le(
                        spec_date_of(opt_str_view(payload.date_joined)),
                        today,
                    ))
                })
            },
        }),
{
    let first_name = match validator::required_str(payload.first_name.as_str(), "First Name") {
        Ok(v) => v,
        Err(e) => {
            return Err(e);
        },
    };
    let last_name = match validator::required_str(payload.last_name.as_str(), "Last Name") {
        Ok(v) => v,
        Err(e) => {
            return Err(e);
        },
    };
    let email_arg = match &payload.email {
        Some(s) => s.as_str(),
        None => "",
    };
    proof {
        reveal_strlit("");
        assert(""@ =~= Seq::<char>::empty());
    }
    let email = match validator::email(email_arg, "Email") {
        Ok(v) => v,
        Err(e) => {
            return Err(e);
        },
    };
    let mobile = match validator::mobile(payload.phone.as_str(), "Phone") {
        Ok(v) => v,
        Err(e) => {
            return Err(e);
        },
    };
    let address = match validator::required_str(payload.address.as_str(), "Address") {
        Ok(v) => v,
        Err(e) => {
            return Err(e);
        },
    };
    let gender = match validator::required_str(payload.gender.as_str(), "Gender") {
        Ok(v) => v,
        Err(e) => {
            return Err(e);
        },
    };
    let date_arg = match &payload.date_joined {
        Some(s) => s.as_str(),
        None => "",
    };
    let date_joined = match validator::date(date_arg, "Date Joined") {
        Ok(v) => v,
        Err(e) => {
            return Err(e);
        },
    };
    if get_member_by_phone(store, &mobile).is_some() {
        let mut msg = "Member With Contact ".to_owned();
        msg.append(mobile.as_str());
        msg.append(" Exists");
        return Err(new_error(2001, msg.as_str(), 403));
    }
    let member = AddMemberDto {
        first_name,
        last_name,
        email: Some(email),
        phone: mobile,
        organization_id: claims._id.clone(),
        gender,
        address,
        date_joined: Some(date_joined),
    };
    save_member(store, member, new_id, now, today)
}

/// Law: toggling a member's blocked flag twice restores it.
pub proof fn lemma_member_toggle_twice(
    a: MemberRecord,
    b: MemberRecord,
    c: MemberRecord,
    t1: u64,
    t2: u64,
)
    requires
        spec_toggled_member(b, a, t1),
        spec_toggled_member(c, b, t2),
    ensures
        c.is_blocked == a.is_blocked,
        c.contact@ == a.contact@,
        c.id@ == a.id@,
{
}

} // verus!
