//! Cross-entity services: the first member created alongside an
//! organization, and the media metadata rows. Media rows name an owner id
//! without a foreign key or owner-kind discriminator — the store does not
//! enforce which table it points into.

use vstd::prelude::*;

use crate::dates::Date;
use crate::dates::date_le;
use crate::dates::spec_date_le;
use crate::error::Error;
use crate::error::is_persistence_failure;
use crate::error::new_error;
use crate::members::get_member_by_id;
use crate::members::opt_view;
use crate::models::SaveMediaDto;
use crate::models::SaveMemberOrgDto;
use crate::store::MediaRecord;
use crate::store::MemberRecord;
use crate::store::Store;
use crate::store::check_gender;
use crate::store::is_valid_gender;
use crate::store::media_id_taken;
use crate::store::member_contact_taken;
use crate::store::member_id_taken;
use crate::store::member_row_wf;
use crate::store::not_selected;
use crate::store::not_selected_chars;
use crate::store::org_id_taken;
use crate::store::store_wf;

verus! {

/// A non-blocked member of this organization already holds this contact.
pub open spec fn member_exists_for_org(
    ms: Seq<MemberRecord>,
    phone: Seq<char>,
    org: Seq<char>,
) -> bool {
    exists|i: int|
        0 <= i < ms.len() && (#[trigger] ms[i]).contact@ == phone && ms[i].organization_id@ == org
            && !ms[i].is_blocked
}

/// The earliest date of birth the schema admits.
pub open spec fn spec_dob_floor() -> Date {
    Date { year: 1900, month: 1, day: 1 }
}

/// What the registration flow writes for the first member.
pub open spec fn spec_inserted_first_member(
    m: MemberRecord,
    data: SaveMemberOrgDto,
    org: Seq<char>,
    id: Seq<char>,
    now: u64,
) -> bool {
    &&& m.id@ == id
    &&& m.first_name@ == data.first_name@
    &&& m.last_name@ == data.last_name@
    &&& opt_view(m.email) == opt_view(data.email)
    &&& m.contact@ == data.phone@
    &&& m.gender@ == data.gender@
    &&& m.date_of_birth == data.date_of_birth
    &&& m.residential_address@ == data.address@
    &&& m.date_joined == data.date_joined
    &&& m.department@ == not_selected_chars()
    &&& m.aux_department@ == not_selected_chars()
    &&& m.sub_department@ == not_selected_chars()
    &&& m.added_by is None
    &&& m.alias is None
    &&& m.member_type@ == not_selected_chars()
    &&& m.is_blocked == false
    &&& m.organization_id@ == org
    &&& m.created_at == now
    &&& m.updated_at == now
}

/// The conditions the first-member insert must meet.
pub open spec fn spec_first_member_insert_ok(
    s: Store,
    data: SaveMemberOrgDto,
    org: Seq<char>,
    id: Seq<char>,
    today: Date,
) -> bool {
    &&& !member_exists_for_org(s.members@, data.phone@, org)
    &&& !member_contact_taken(s.members@, data.phone@)
    &&& !member_id_taken(s.members@, id)
    &&& org_id_taken(s.organizations@, org)
    &&& is_valid_gender(data.gender@)
    &&& (match data.date_joined {
        Some(d) => spec_date_le(d, today),
        None => true,
    })
    &&& (match data.date_of_birth {
        Some(d) => spec_date_le(spec_dob_floor(), d) && spec_date_le(d, today),
        None => true,
    })
}

/// Creates the organization's primary contact as its first member: an
/// existing non-blocked member with this contact in the organization is
/// rejected first, then the schema rules apply as for any member insert.
pub fn save_member_from_org(
    store: &mut Store,
    org_id: &String,
    data: SaveMemberOrgDto,
    member_id: String,
    now: u64,
    today: Date,
) -> (r: Result<String, Error>)
    requires
        store_wf(*old(store)),
    ensures
        store_wf(*final(store)),
        final(store).organizations@ == old(store).organizations@,
        final(store).media@ == old(store).media@,
        (match r {
            Ok(rid) => {
                &&& rid@ == member_id@
                &&& spec_first_member_insert_ok(*old(store), data, org_id@, member_id@, today)
                &&& final(store).members@.len() == old(store).members@.len() + 1
                &&& final(store).members@.subrange(0, old(store).members@.len() as int) == old(
                    store,
                ).members@
                &&& spec_inserted_first_member(
                    final(store).members@.last(),
                    data,
                    org_id@,
                    member_id@,
                    now,
                )
            },
            Err(e) => {
                &&& final(store).members@ == old(store).members@
                &&& is_persistence_failure(e)
                &&& !spec_first_member_insert_ok(*old(store), data, org_id@, member_id@, today)
                &&& (if member_exists_for_org(old(store).members@, data.phone@, org_id@) {
                    e.message@ == "Member already exists"@
                } else if member_contact_taken(old(store).members@, data.phone@) {
                    e.message@ == "Duplicate member contact"@
                } else if member_id_taken(old(store).members@, member_id@) {
                    e.message@ == "Duplicate member id"@
                } else if !org_id_taken(old(store).organizations@, org_id@) {
                    e.message@ == "Organization does not exist"@
                } else if !is_valid_gender(data.gender@) {
                    e.message@ == "Invalid gender"@
                } else if (match data.date_joined {
                    Some(d) => !spec_date_le(d, today),
                    None => false,
                }) {
                    e.message@ == "Date joined is in the future"@
                } else {
                    e.message@ == "Date of birth is out of range"@
                })
            },
        }),
{
    if member_for_org_index(store, &data.phone, org_id).is_some() {
        return Err(new_error(2001, "Member already exists", 500));
    }
    if member_contact_any_index(store, &data.phone).is_some() {
        return Err(new_error(2001, "Duplicate member contact", 500));
    }
    if get_member_by_id(store, &member_id).is_some() {
        return Err(new_error(2001, "Duplicate member id", 500));
    }
    if org_any_index(store, org_id).is_none() {
        return Err(new_error(2001, "Organization does not exist", 500));
    }
    if !check_gender(&data.gender) {
        return Err(new_error(2001, "Invalid gender", 500));
    }
    match &data.date_joined {
        Some(d) => {
            if !date_le(d, &today) {
                return Err(new_error(2001, "Date joined is in the future", 500));
            }
        },
        None => {},
    }
    match &data.date_of_birth {
        Some(d) => {
            let floor = Date { year: 1900, month: 1, day: 1 };
            if !date_le(&floor, d) || !date_le(d, &today) {
                return Err(new_error(2001, "Date of birth is out of range", 500));
            }
        },
        None => {},
    }
    let rec = MemberRecord {
        id: member_id.clone(),
        first_name: data.first_name,
        last_name: data.last_name,
        email: data.email,
        contact: data.phone,
        gender: data.gender,
        date_of_birth: data.date_of_birth,
        residential_address: data.address,
        date_joined: data.date_joined,
        department: not_selected(),
        aux_department: not_selected(),
        sub_department: not_selected(),
        added_by: None,
        alias: None,
        member_type: not_selected(),
        is_blocked: false,
        organization_id: org_id.clone(),
        created_at: now,
        updated_at: now,
    };
    let ghost ms0 = old(store).members@;
    store.members.push(rec);
    proof {
        let ms1 = store.members@;
        assert(ms1.subrange(0, ms0.len() as int) =~= ms0);
        assert forall|i: int, j: int| 0 <= i < j < ms1.len() implies ms1[i].id@ != ms1[j].id@
            && ms1[i].contact@ != ms1[j].contact@ by {
            if j < ms0.len() {
                assert(ms1[i] == ms0[i] && ms1[j] == ms0[j]);
            } else {
                assert(ms1[i] == ms0[i]);
            }
        }
        assert forall|i: int| 0 <= i < ms1.len() implies member_row_wf(#[trigger] ms1[i]) by {
            if i < ms0.len() {
                assert(ms1[i] == ms0[i]);
            }
        }
    }
    Ok(member_id)
}

fn member_for_org_index(store: &Store, phone: &String, org: &String) -> (r: Option<usize>)
    ensures
        (match r {
            Some(i) => i < store.members@.len() && store.members@[i as int].contact@ == phone@
                && store.members@[i as int].organization_id@ == org@ && !store.members@[i as int].is_blocked,
            None => !member_exists_for_org(store.members@, phone@, org@),
        }),
{
    let mut i: usize = 0;
    while i < store.members.len()
        invariant
            i <= store.members@.len(),
            forall|j: int|
                0 <= j < i ==> !((#[trigger] store.members@[j]).contact@ == phone@
                    && store.members@[j].organization_id@ == org@
                    && !store.members@[j].is_blocked),
        decreases store.members@.len() - i,
    {
        if store.members[i].contact == *phone && store.members[i].organization_id == *org
            && !store.members[i].is_blocked {
            return Some(i);
        }
        i = i + 1;
    }
    None
}

fn member_contact_any_index(store: &Store, phone: &String) -> (r: Option<usize>)
    ensures
        (match r {
            Some(i) => i < store.members@.len() && store.members@[i as int].contact@ == phone@,
            None => !member_contact_taken(store.members@, phone@),
        }),
{
    let mut i: usize = 0;
    while i < store.members.len()
        invariant
            i <= store.members@.len(),
            forall|j: int| 0 <= j < i ==> (#[trigger] store.members@[j]).contact@ != phone@,
        decreases store.members@.len() - i,
    {
        if store.members[i].contact == *phone {
            return Some(i);
        }
        i = i + 1;
    }
    None
}

fn org_any_index(store: &Store, id: &String) -> (r: Option<usize>)
    ensures
        (match r {
            Some(i) => i < store.organizations@.len() && store.organizations@[i as int].id@ == id@,
            None => !org_id_taken(store.organizations@, id@),
        }),
{
    let mut i: usize = 0;
    while i < store.organizations.len()
        invariant
            i <= store.organizations@.len(),
            forall|j: int| 0 <= j < i ==> (#[trigger] store.organizations@[j]).id@ != id@,
        decreases store.organizations@.len() - i,
    {
        if store.organizations[i].id == *id {
            return Some(i);
        }
        i = i + 1;
    }
    None
}

// ---------------------------------------------------------------------------
// Media.
// ---------------------------------------------------------------------------

/// What an accepted media insert writes.
pub open spec fn spec_inserted_media(
    m: MediaRecord,
    owner: Seq<char>,
    data: SaveMediaDto,
    id: Seq<char>,
    now: u64,
) -> bool {
    &&& m.id@ == id
    &&& m.owner_id@ == owner
    &&& opt_view(m.file_name) == Some(data.file_name@)
    &&& opt_view(m.file_path) == Some(data.file_path@)
    &&& opt_view(m.mime_type) == Some(data.mime_type@)
    &&& m.file_size == Some(data.file_size)
    &&& opt_view(m.media_type) == Some(data.media_type@)
    &&& m.width == data.width
    &&& m.height == data.height
    &&& m.duration == data.duration
    &&& m.is_deleted == false
    &&& m.created_at == now
    &&& m.updated_at == now
}

/// Records metadata for a media object. The file must already have been
/// written: a row is only created after the successful file side effect,
/// which the caller reports through `file_present`.
pub fn save_media_meta(
    store: &mut Store,
    owner: &String,
    data: SaveMediaDto,
    file_present: bool,
    id: String,
    now: u64,
) -> (r: Result<String, Error>)
    requires
        store_wf(*old(store)),
    ensures
        store_wf(*final(store)),
        final(store).members@ == old(store).members@,
        final(store).organizations@ == old(store).organizations@,
        (match r {
            Ok(rid) => {
                &&& rid@ == id@
                &&& file_present
                &&& !media_id_taken(old(store).media@, id@)
                &&& final(store).media@.len() == old(store).media@.len() + 1
                &&& final(store).media@.subrange(0, old(store).media@.len() as int) == old(
                    store,
                ).media@
                &&& spec_inserted_media(final(store).media@.last(), owner@, data, id@, now)
            },
            Err(e) => {
                &&& final(store).media@ == old(store).media@
                &&& is_persistence_failure(e)
                &&& (!file_present || media_id_taken(old(store).media@, id@))
                &&& (if !file_present {
                    e.message@ == "File does not exist"@
                } else {
                    e.message@ == "Duplicate media id"@
                })
            },
        }),
{
    if !file_present {
        return Err(new_error(2001, "File does not exist", 500));
    }
    if get_media_by_id(store, &id).is_some() {
        return Err(new_error(2001, "Duplicate media id", 500));
    }
    let rec = MediaRecord {
        id: id.clone(),
        owner_id: owner.clone(),
        file_name: Some(data.file_name),
        file_path: Some(data.file_path),
        mime_type: Some(data.mime_type),
        file_size: Some(data.file_size),
        media_type: Some(data.media_type),
        width: data.width,
        height: data.height,
        duration: data.duration,
        is_deleted: false,
        created_at: now,
        updated_at: now,
    };
    let ghost md0 = old(store).media@;
    store.media.push(rec);
    proof {
        let md1 = store.media@;
        assert(md1.subrange(0, md0.len() as int) =~= md0);
        assert forall|i: int, j: int| 0 <= i < j < md1.len() implies md1[i].id@ != md1[j].id@ by {
            if j < md0.len() {
                assert(md1[i] == md0[i] && md1[j] == md0[j]);
            } else {
                assert(md1[i] == md0[i]);
            }
        }
    }
    Ok(id)
}

/// Index of the media row with this id, if any.
pub fn get_media_by_id(store: &Store, id: &String) -> (r: Option<usize>)
    ensures
        (match r {
            Some(i) => i < store.media@.len() && store.media@[i as int].id@ == id@,
            None => !media_id_taken(store.media@, id@),
        }),
{
    let mut i: usize = 0;
    while i < store.media.len()
        invariant
            i <= store.media@.len(),
            forall|j: int| 0 <= j < i ==> (#[trigger] store.media@[j]).id@ != id@,
        decreases store.media@.len() - i,
    {
        if store.media[i].id == *id {
            return Some(i);
        }
        i = i + 1;
    }
    None
}

/// Indices of every media row owned by `owner`, in store order.
pub fn get_media_by_user(store: &Store, owner: &String) -> (r: Vec<usize>)
    ensures
        forall|k: int|
            0 <= k < r@.len() ==> r@[k] < store.media@.len() && store.media@[r@[k] as int].owner_id@
                == owner@,
        forall|j: int|
            0 <= j < store.media@.len() && (#[trigger] store.media@[j]).owner_id@ == owner@
                ==> r@.contains(j as usize),
        forall|k1: int, k2: int| 0 <= k1 < k2 < r@.len() ==> r@[k1] < r@[k2],
{
    let mut r: Vec<usize> = Vec::new();
    let mut i: usize = 0;
    while i < store.media.len()
        invariant
            i <= store.media@.len(),
            forall|k: int|
                0 <= k < r@.len() ==> r@[k] < i && store.media@[r@[k] as int].owner_id@ == owner@,
            forall|j: int|
                0 <= j < i && (#[trigger] store.media@[j]).owner_id@ == owner@ ==> r@.contains(
                    j as usize,
                ),
            forall|k1: int, k2: int| 0 <= k1 < k2 < r@.len() ==> r@[k1] < r@[k2],
        decreases store.media@.len() - i,
    {
        if store.media[i].owner_id == *owner {
            let ghost r0 = r@;
            r.push(i);
            proof {
                assert(r@[r0.len() as int] == i);
                assert forall|j: int|
                    0 <= j < i + 1 && (#[trigger] store.media@[j]).owner_id@ == owner@ implies r@
                    .contains(j as usize) by {
                    if j < i {
                        assert(r0.contains(j as usize));
                        let k = choose|k: int| 0 <= k < r0.len() && r0[k] == j as usize;
                        assert(r@[k] == j as usize);
                    }
                }
            }
        }
        i = i + 1;
    }
    r
}

/// Law: creating a non-blocked member row makes its contact active, so
/// the duplicate rule rejects a second creation with the same contact.
pub proof fn lemma_duplicate_member_contact(
    ms0: Seq<MemberRecord>,
    ms1: Seq<MemberRecord>,
    m: MemberRecord,
    phone: Seq<char>,
)
    requires
        ms1 == ms0.push(m),
        m.contact@ == phone,
        !m.is_blocked,
    ensures
        crate::store::member_phone_active(ms1, phone),
{
    assert(ms1[ms0.len() as int] == m);
}

/// Law: creating a non-blocked organization row makes its contact active,
/// so the duplicate rule rejects a second registration with the same
/// contact.
pub proof fn lemma_duplicate_org_contact(
    os0: Seq<crate::store::OrganizationRecord>,
    os1: Seq<crate::store::OrganizationRecord>,
    o: crate::store::OrganizationRecord,
    phone: Seq<char>,
)
    requires
        os1 == os0.push(o),
        o.contact@ == phone,
        !o.is_blocked,
    ensures
        crate::store::org_phone_active(os1, phone),
{
    assert(os1[os0.len() as int] == o);
}

} // verus!
