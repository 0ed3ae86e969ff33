//! The organizations service: tenant roots created through registration,
//! looked up by their unique contact, partially updated, and soft-blocked.
//! Registration also creates the organization's primary contact as its
//! first member; the two inserts are separate operations, not one
//! transaction — the store's own uniqueness rules are the backstop, and a
//! late member failure leaves the organization row in place, as the
//! original flow does.

use vstd::prelude::*;
use vstd::string::StringExecFns;

use crate::dates::Date;
use crate::error::Error;
use crate::error::is_duplicate_resource;
use crate::error::is_persistence_failure;
use crate::error::is_validation_failure;
use crate::error::new_error;
use crate::members::opt_view;
use crate::models::AddOrganizationDto;
use crate::models::AddOrganizationModel;
use crate::models::CreatedResponseModel;
use crate::models::SaveMemberOrgDto;
use crate::models::UpdateOrganizationDto;
use crate::models::SaveMediaDto;
use crate::models::UploadImgModel;
use crate::models::opt_str_view;
use crate::pword::new_uuid_string;
use crate::shared::member_exists_for_org;
use crate::shared::save_member_from_org;
use crate::shared::spec_dob_floor;
use crate::store::OrganizationRecord;
use crate::store::Store;
use crate::store::org_contact_taken;
use crate::store::org_id_taken;
use crate::store::org_phone_active;
use crate::store::store_wf;
use crate::dates::spec_date_le;
use crate::validator;
use crate::validator::is_nonblank;
use crate::validator::is_uuid_chars;
use crate::validator::is_valid_date_string;
use crate::validator::is_valid_email;
use crate::validator::is_valid_phone;
use crate::validator::spec_date_of;

verus! {

// ---------------------------------------------------------------------------
// Lookups.
// ---------------------------------------------------------------------------

/// Index of the non-blocked organization with this id, if any.
pub fn get_organization_by_id(store: &Store, id: &String) -> (r: Option<usize>)
    ensures
        (match r {
            Some(i) => i < store.organizations@.len() && store.organizations@[i as int].id@ == id@
                && !store.organizations@[i as int].is_blocked,
            None => forall|j: int|
                0 <= j < store.organizations@.len() ==> !((#[trigger] store.organizations@[j]).id@
                    == id@ && !store.organizations@[j].is_blocked),
        }),
{
    let mut i: usize = 0;
    while i < store.organizations.len()
        invariant
            i <= store.organizations@.len(),
            forall|j: int|
                0 <= j < i ==> !((#[trigger] store.organizations@[j]).id@ == id@
                    && !store.organizations@[j].is_blocked),
        decreases store.organizations@.len() - i,
    {
        if store.organizations[i].id == *id && !store.organizations[i].is_blocked {
            return Some(i);
        }
        i = i + 1;
    }
    None
}

/// Index of a non-blocked organization holding this email, if any.
pub fn get_organization_by_email(store: &Store, email: &String) -> (r: Option<usize>)
    ensures
        (match r {
            Some(i) => i < store.organizations@.len() && opt_view(
                store.organizations@[i as int].email,
            ) == Some(email@) && !store.organizations@[i as int].is_blocked,
            None => forall|j: int|
                0 <= j < store.organizations@.len() ==> !(opt_view(
                    (#[trigger] store.organizations@[j]).email,
                ) == Some(email@) && !store.organizations@[j].is_blocked),
        }),
{
    let mut i: usize = 0;
    while i < store.organizations.len()
        invariant
            i <= store.organizations@.len(),
            forall|j: int|
                0 <= j < i ==> !(opt_view((#[trigger] store.organizations@[j]).email) == Some(
                    email@,
                ) && !store.organizations@[j].is_blocked),
        decreases store.organizations@.len() - i,
    {
        let matches_email = match &store.organizations[i].email {
            Some(e) => *e == *email,
            None => false,
        };
        if matches_email && !store.organizations[i].is_blocked {
            return Some(i);
        }
        i = i + 1;
    }
    None
}

/// Index of a non-blocked organization holding this contact, if any.
pub fn get_organization_by_phone(store: &Store, phone: &String) -> (r: Option<usize>)
    ensures
        (match r {
            Some(i) => i < store.organizations@.len() && store.organizations@[i as int].contact@
                == phone@ && !store.organizations@[i as int].is_blocked,
            None => !org_phone_active(store.organizations@, phone@),
        }),
{
    let mut i: usize = 0;
    while i < store.organizations.len()
        invariant
            i <= store.organizations@.len(),
            forall|j: int|
                0 <= j < i ==> !((#[trigger] store.organizations@[j]).contact@ == phone@
                    && !store.organizations@[j].is_blocked),
        decreases store.organizations@.len() - i,
    {
        if store.organizations[i].contact == *phone && !store.organizations[i].is_blocked {
            return Some(i);
        }
        i = i + 1;
    }
    None
}

/// Whether any organization row holds this contact.
fn org_contact_index(store: &Store, phone: &String) -> (r: Option<usize>)
    ensures
        (match r {
            Some(i) => i < store.organizations@.len() && store.organizations@[i as int].contact@
                == phone@,
            None => !org_contact_taken(store.organizations@, phone@),
        }),
{
    let mut i: usize = 0;
    while i < store.organizations.len()
        invariant
            i <= store.organizations@.len(),
            forall|j: int| 0 <= j < i ==> (#[trigger] store.organizations@[j]).contact@ != phone@,
        decreases store.organizations@.len() - i,
    {
        if store.organizations[i].contact == *phone {
            return Some(i);
        }
        i = i + 1;
    }
    None
}

/// Whether any organization row holds this id.
fn org_index_any(store: &Store, id: &String) -> (r: Option<usize>)
    ensures
        (match r {
            Some(i) => i < store.organizations@.len() && store.organizations@[i as int].id@ == id@,
            None => !org_id_taken(store.organizations@, id@),
        }),
{
    let mut i: usize = 0;
    while i < store.organizations.len()
        invariant
            i <= store.organizations@.len(),
            forall|j: int| 0 <= j < i ==> (#[trigger] store.organizations@[j]).id@ != id@,
        decreases store.organizations@.len() - i,
    {
        if store.organizations[i].id == *id {
            return Some(i);
        }
        i = i + 1;
    }
    None
}

/// All organization rows, as the listing endpoint returns them.
pub fn get_organizations(store: &Store) -> (r: &Vec<OrganizationRecord>)
    ensures
        r@ == store.organizations@,
{
    &store.organizations
}

// ---------------------------------------------------------------------------
// Creation.
// ---------------------------------------------------------------------------

/// What an accepted organization insert writes.
pub open spec fn spec_inserted_org(
    o: OrganizationRecord,
    data: AddOrganizationDto,
    id: Seq<char>,
    now: u64,
) -> bool {
    &&& o.id@ == id
    &&& o.name@ == data.name@
    &&& opt_view(o.email) == Some(data.email@)
    &&& o.contact@ == data.phone@
    &&& o.address@ == data.address@
    &&& o.is_blocked == false
    &&& o.created_at == now
    &&& o.updated_at == now
}

/// The schema conditions an organization insert must meet.
pub open spec fn spec_org_insert_ok(s: Store, data: AddOrganizationDto, id: Seq<char>) -> bool {
    &&& !org_id_taken(s.organizations@, id)
    &&& !org_contact_taken(s.organizations@, data.phone@)
}

/// Inserts an organization row; a unique-column conflict is reported as
/// the generic persistence failure the database driver would produce.
pub fn save_organization(store: &mut Store, organization: AddOrganizationDto, id: String, now: u64) -> (r: Result<String, Error>)
    requires
        store_wf(*old(store)),
    ensures
        store_wf(*final(store)),
        final(store).members@ == old(store).members@,
        final(store).media@ == old(store).media@,
        (match r {
            Ok(rid) => {
                &&& rid@ == id@
                &&& spec_org_insert_ok(*old(store), organization, id@)
                &&& final(store).organizations@.len() == old(store).organizations@.len() + 1
                &&& final(store).organizations@.subrange(
                    0,
                    old(store).organizations@.len() as int,
                ) == old(store).organizations@
                &&& spec_inserted_org(final(store).organizations@.last(), organization, id@, now)
            },
            Err(e) => {
                &&& final(store).organizations@ == old(store).organizations@
                &&& is_persistence_failure(e)
                &&& !spec_org_insert_ok(*old(store), organization, id@)
                &&& (if org_contact_taken(old(store).organizations@, organization.phone@) {
                    e.message@ == "Duplicate organization contact"@
                } else {
                    e.message@ == "Duplicate organization id"@
                })
            },
        }),
{
    if org_contact_index(store, &organization.phone).is_some() {
        return Err(new_error(2001, "Duplicate organization contact", 500));
    }
    if org_index_any(store, &id).is_some() {
        return Err(new_error(2001, "Duplicate organization id", 500));
    }
    let rec = OrganizationRecord {
        id: id.clone(),
        name: organization.name,
        email: Some(organization.email),
        contact: organization.phone,
        address: organization.address,
        is_blocked: false,
        created_at: now,
        updated_at: now,
    };
    let ghost os0 = old(store).organizations@;
    store.organizations.push(rec);
    proof {
        let os1 = store.organizations@;
        assert(os1.subrange(0, os0.len() as int) =~= os0);
        assert forall|i: int, j: int| 0 <= i < j < os1.len() implies os1[i].id@ != os1[j].id@
            && os1[i].contact@ != os1[j].contact@ by {
            if j < os0.len() {
                assert(os1[i] == os0[i] && os1[j] == os0[j]);
            } else {
                assert(os1[i] == os0[i]);
            }
        }
    }
    Ok(id)
}

// ---------------------------------------------------------------------------
// Partial update.
// ---------------------------------------------------------------------------

/// The sparse-patch semantics for an organization row.
pub open spec fn spec_updated_org(
    u: OrganizationRecord,
    o: OrganizationRecord,
    dto: UpdateOrganizationDto,
    now: u64,
) -> bool {
    &&& u.id@ == o.id@
    &&& u.name@ == (match dto.name {
        Some(v) => v@,
        None => o.name@,
    })
    &&& opt_view(u.email) == (match dto.email {
        Some(v) => Some(v@),
        None => opt_view(o.email),
    })
    &&& u.contact@ == (match dto.phone {
        Some(v) => v@,
        None => o.contact@,
    })
    &&& u.address@ == (match dto.address {
        Some(v) => v@,
        None => o.address@,
    })
    &&& u.is_blocked == o.is_blocked
    &&& u.created_at == o.created_at
    &&& u.updated_at == now
}

/// The schema condition an organization patch must meet at row `i`.
pub open spec fn spec_org_update_ok(s: Store, i: int, dto: UpdateOrganizationDto) -> bool {
    match dto.phone {
        Some(p) => forall|j: int|
            0 <= j < s.organizations@.len() && j != i
                ==> (#[trigger] s.organizations@[j]).contact@ != p@,
        None => true,
    }
}

/// There is a non-blocked row with this id that the patch may lawfully
/// be applied to.
pub open spec fn spec_org_update_applicable(
    s: Store,
    id: Seq<char>,
    dto: UpdateOrganizationDto,
) -> bool {
    exists|i: int|
        0 <= i < s.organizations@.len() && (#[trigger] s.organizations@[i]).id@ == id
            && !s.organizations@[i].is_blocked && spec_org_update_ok(s, i, dto)
}

/// With unique ids, a failing check at the one matching row refutes the
/// whole patch.
proof fn lemma_org_update_row_is_unique(
    s: Store,
    id: Seq<char>,
    dto: UpdateOrganizationDto,
    i: int,
)
    requires
        store_wf(s),
        0 <= i < s.organizations@.len(),
        s.organizations@[i].id@ == id,
        s.organizations@[i].is_blocked || !spec_org_update_ok(s, i, dto),
    ensures
        !spec_org_update_applicable(s, id, dto),
{
    assert forall|i2: int|
        !(0 <= i2 < s.organizations@.len() && (#[trigger] s.organizations@[i2]).id@ == id
            && !s.organizations@[i2].is_blocked && spec_org_update_ok(s, i2, dto)) by {
        if 0 <= i2 < s.organizations@.len() && s.organizations@[i2].id@ == id {
            if i2 < i {
                assert(s.organizations@[i2].id@ != s.organizations@[i].id@);
            } else if i2 > i {
                assert(s.organizations@[i].id@ != s.organizations@[i2].id@);
            }
        }
    }
}

/// Applies a sparse patch to the non-blocked organization with this id,
/// stamping the modification time unconditionally; an absent or blocked
/// row is the not-found rejection, as for members.
pub fn update_organization(
    store: &mut Store,
    id: &String,
    organization: UpdateOrganizationDto,
    now: u64,
) -> (r: Result<usize, Error>)
    requires
        store_wf(*old(store)),
    ensures
        store_wf(*final(store)),
        final(store).members@ == old(store).members@,
        final(store).media@ == old(store).media@,
        (match r {
            Ok(i) => {
                &&& i < old(store).organizations@.len()
                &&& old(store).organizations@[i as int].id@ == id@
                &&& !old(store).organizations@[i as int].is_blocked
                &&& final(store).organizations@.len() == old(store).organizations@.len()
                &&& (forall|j: int|
                    0 <= j < old(store).organizations@.len() && j != i ==> final(store).organizations@[j] == old(store).organizations@[j])
                &&& spec_updated_org(
                    final(store).organizations@[i as int],
                    old(store).organizations@[i as int],
                    organization,
                    now,
                )
            },
            Err(e) => {
                &&& final(store).organizations@ == old(store).organizations@
                &&& is_persistence_failure(e)
                &&& !spec_org_update_applicable(*old(store), id@, organization)
                &&& (if !org_active(old(store).organizations@, id@) {
                    e.message@ == "Organization not found"@
                } else {
                    e.message@ == "Duplicate organization contact"@
                })
            },
        }),
{
    let i = match get_organization_by_id(store, id) {
        Some(i) => i,
        None => {
            return Err(new_error(2001, "Organization not found", 500));
        },
    };
    match &organization.phone {
        Some(p) => {
            if org_contact_taken_except(store, p, i) {
                proof {
                    lemma_org_update_row_is_unique(*old(store), id@, organization, i as int);
                    assert(org_active(old(store).organizations@, id@));
                }
                return Err(new_error(2001, "Duplicate organization contact", 500));
            }
        },
        None => {},
    }
    let o = &store.organizations[i];
    let updated = OrganizationRecord {
        id: o.id.clone(),
        name: match organization.name {
            Some(v) => v,
            None => o.name.clone(),
        },
        email: match organization.email {
            Some(v) => Some(v),
            None => o.email.clone(),
        },
        contact: match organization.phone {
            Some(v) => v,
            None => o.contact.clone(),
        },
        address: match organization.address {
            Some(v) => v,
            None => o.address.clone(),
        },
        is_blocked: o.is_blocked,
        created_at: o.created_at,
        updated_at: now,
    };
    let ghost os0 = old(store).organizations@;
    store.organizations[i] = updated;
    proof {
        let os1 = store.organizations@;
        assert forall|a: int, b: int| 0 <= a < b < os1.len() implies os1[a].id@ != os1[b].id@
            && os1[a].contact@ != os1[b].contact@ by {
            if a != i && b != i {
                assert(os1[a] == os0[a] && os1[b] == os0[b]);
            }
        }
    }
    Ok(i)
}

/// Whether another row than `except` holds this contact.
fn org_contact_taken_except(store: &Store, phone: &String, except: usize) -> (r: bool)
    ensures
        r == exists|j: int|
            0 <= j < store.organizations@.len() && j != except && (#[trigger] store.organizations@[j]).contact@
                == phone@,
{
    let mut i: usize = 0;
    while i < store.organizations.len()
        invariant
            i <= store.organizations@.len(),
            forall|j: int|
                0 <= j < i && j != except ==> (#[trigger] store.organizations@[j]).contact@
                    != phone@,
        decreases store.organizations@.len() - i,
    {
        if i != except && store.organizations[i].contact == *phone {
            return true;
        }
        i = i + 1;
    }
    false
}

// ---------------------------------------------------------------------------
// Blocked toggle.
// ---------------------------------------------------------------------------

/// The complement toggle for an organization row.
pub open spec fn spec_toggled_org(u: OrganizationRecord, o: OrganizationRecord, now: u64) -> bool {
    &&& u.id@ == o.id@
    &&& u.name@ == o.name@
    &&& opt_view(u.email) == opt_view(o.email)
    &&& u.contact@ == o.contact@
    &&& u.address@ == o.address@
    &&& u.is_blocked == !o.is_blocked
    &&& u.created_at == o.created_at
    &&& u.updated_at == now
}

/// Flips the blocked flag of the organization with this id, verbatim.
pub fn toggle_block(store: &mut Store, id: &String, now: u64) -> (r: Result<(), Error>)
    requires
        store_wf(*old(store)),
    ensures
        store_wf(*final(store)),
        final(store).members@ == old(store).members@,
        final(store).media@ == old(store).media@,
        (match r {
            Ok(_) => {
                &&& org_id_taken(old(store).organizations@, id@)
                &&& final(store).organizations@.len() == old(store).organizations@.len()
                &&& exists|i: int|
                    0 <= i < old(store).organizations@.len() && (#[trigger] old(
                        store,
                    ).organizations@[i]).id@ == id@ && spec_toggled_org(
                        final(store).organizations@[i],
                        old(store).organizations@[i],
                        now,
                    ) && (forall|j: int|
                        0 <= j < old(store).organizations@.len() && j != i
                            ==> final(store).organizations@[j] == old(store).organizations@[j])
            },
            Err(e) => {
                &&& final(store).organizations@ == old(store).organizations@
                &&& is_persistence_failure(e)
                &&& !org_id_taken(old(store).organizations@, id@)
                &&& e.message@ == "Organization not found"@
            },
        }),
{
    let i = match org_index_any(store, id) {
        Some(i) => i,
        None => {
            return Err(new_error(2001, "Organization not found", 500));
        },
    };
    let o = &store.organizations[i];
    let updated = OrganizationRecord {
        id: o.id.clone(),
        name: o.name.clone(),
        email: o.email.clone(),
        contact: o.contact.clone(),
        address: o.address.clone(),
        is_blocked: !o.is_blocked,
        created_at: o.created_at,
        updated_at: now,
    };
    let ghost os0 = old(store).organizations@;
    store.organizations[i] = updated;
    proof {
        let os1 = store.organizations@;
        assert forall|a: int, b: int| 0 <= a < b < os1.len() implies os1[a].id@ != os1[b].id@
            && os1[a].contact@ != os1[b].contact@ by {
            if a != i && b != i {
                assert(os1[a] == os0[a] && os1[b] == os0[b]);
            }
        }
    }
    Ok(())
}

// ---------------------------------------------------------------------------
// Registration: the organization plus its first member.
// ---------------------------------------------------------------------------

/// Every field rule registration demands, in its own order.
pub open spec fn spec_org_payload_valid(p: AddOrganizationModel) -> bool {
    &&& is_nonblank(p.name@)
    &&& is_valid_email(p.email@)
    &&& is_valid_phone(p.phone@)
    &&& is_nonblank(p.address@)
    &&& is_nonblank(p.first_name@)
    &&& is_nonblank(p.last_name@)
    &&& is_valid_email(opt_str_view(p.member_email))
    &&& is_valid_phone(p.member_phone@)
    &&& is_nonblank(p.member_address@)
    &&& is_nonblank(p.gender@)
    &&& is_valid_date_string(opt_str_view(p.date_joined))
    &&& is_valid_date_string(opt_str_view(p.date_of_birth))
}

/// The organization row registration writes.
pub open spec fn spec_org_from_payload(
    o: OrganizationRecord,
    p: AddOrganizationModel,
    id: Seq<char>,
    now: u64,
) -> bool {
    &&& o.id@ == id
    &&& o.name@ == p.name@
    &&& opt_view(o.email) == Some(p.email@)
    &&& o.contact@ == p.phone@
    &&& o.address@ == p.address@
    &&& o.is_blocked == false
    &&& o.created_at == now
    &&& o.updated_at == now
}

/// The first-member row registration writes.
pub open spec fn spec_first_member_from_payload(
    m: crate::store::MemberRecord,
    p: AddOrganizationModel,
    org: Seq<char>,
    id: Seq<char>,
    now: u64,
) -> bool {
    &&& m.id@ == id
    &&& m.first_name@ == p.first_name@
    &&& m.last_name@ == p.last_name@
    &&& opt_view(m.email) == Some(opt_str_view(p.member_email))
    &&& m.contact@ == p.member_phone@
    &&& m.gender@ == p.gender@
    &&& m.date_of_birth == Some(spec_date_of(opt_str_view(p.date_of_birth)))
    &&& m.residential_address@ == p.member_address@
    &&& m.date_joined == Some(spec_date_of(opt_str_view(p.date_joined)))
    &&& m.is_blocked == false
    &&& m.organization_id@ == org
    &&& m.created_at == now
    &&& m.updated_at == now
}

/// What the member half of registration needs from the prior state.
pub open spec fn spec_reg_member_ok(
    s: Store,
    p: AddOrganizationModel,
    org: Seq<char>,
    member_id: Seq<char>,
    today: Date,
) -> bool {
    &&& !member_exists_for_org(s.members@, p.member_phone@, org)
    &&& !crate::store::member_contact_taken(s.members@, p.member_phone@)
    &&& !crate::store::member_id_taken(s.members@, member_id)
    &&& crate::store::is_valid_gender(p.gender@)
    &&& spec_date_le(spec_date_of(opt_str_view(p.date_joined)), today)
    &&& spec_date_le(spec_dob_floor(), spec_date_of(opt_str_view(p.date_of_birth)))
    &&& spec_date_le(spec_date_of(opt_str_view(p.date_of_birth)), today)
}

/// Registers an organization with its primary contact as first member.
/// Validation is fail-fast in field order; a contact held by a
/// non-blocked organization is rejected as a duplicate before any write;
/// the two inserts are separate store operations, so a member-side
/// failure leaves the new organization row in place.
pub fn add_organization(
    store: &mut Store,
    payload: &AddOrganizationModel,
    org_id: String,
    member_id: String,
    now: u64,
    today: Date,
) -> (r: Result<CreatedResponseModel, Error>)
    requires
        store_wf(*old(store)),
    ensures
        store_wf(*final(store)),
        final(store).media@ == old(store).media@,
        (match r {
            Ok(res) => {
                &&& spec_org_payload_valid(*payload)
                &&& !org_phone_active(old(store).organizations@, payload.phone@)
                &&& res.organization@ == org_id@
                &&& res.member@ == member_id@
                &&& final(store).organizations@.len() == old(store).organizations@.len() + 1
                &&& final(store).organizations@.subrange(
                    0,
                    old(store).organizations@.len() as int,
                ) == old(store).organizations@
                &&& spec_org_from_payload(
                    final(store).organizations@.last(),
                    *payload,
                    org_id@,
                    now,
                )
                &&& final(store).members@.len() == old(store).members@.len() + 1
                &&& final(store).members@.subrange(0, old(store).members@.len() as int) == old(
                    store,
                ).members@
                &&& spec_first_member_from_payload(
                    final(store).members@.last(),
                    *payload,
                    org_id@,
                    member_id@,
                    now,
                )
            },
            Err(e) => {
                &&& (if !is_nonblank(payload.name@) {
                    final(store).organizations@ == old(store).organizations@ && final(store).members@ == old(store).members@ && is_validation_failure(e) && e.message@
                        == "Name"@ + " is required"@
                } else if !is_valid_email(payload.email@) {
                    final(store).organizations@ == old(store).organizations@ && final(store).members@ == old(store).members@ && is_validation_failure(e) && e.message@
                        == "Email"@ + " validation failed"@
                } else if !is_valid_phone(payload.phone@) {
                    final(store).organizations@ == old(store).organizations@ && final(store).members@ == old(store).members@ && is_validation_failure(e) && e.message@
                        == "Phone"@ + " validation failed"@
                } else if !is_nonblank(payload.address@) {
                    final(store).organizations@ == old(store).organizations@ && final(store).members@ == old(store).members@ && is_validation_failure(e) && e.message@
                        == "Address"@ + " is required"@
                } else if !is_nonblank(payload.first_name@) {
                    final(store).organizations@ == old(store).organizations@ && final(store).members@ == old(store).members@ && is_validation_failure(e) && e.message@
                        == "First Name"@ + " is required"@
                } else if !is_nonblank(payload.last_name@) {
                    final(store).organizations@ == old(store).organizations@ && final(store).members@ == old(store).members@ && is_validation_failure(e) && e.message@
                        == "Last Name"@ + " is required"@
                } else if !is_valid_email(opt_str_view(payload.member_email)) {
                    final(store).organizations@ == old(store).organizations@ && final(store).members@ == old(store).members@ && is_validation_failure(e) && e.message@
                        == "Member Email"@ + " validation failed"@
                } else if !is_valid_phone(payload.member_phone@) {
                    final(store).organizations@ == old(store).organizations@ && final(store).members@ == old(store).members@ && is_validation_failure(e) && e.message@
                        == "Member Phone"@ + " validation failed"@
                } else if !is_nonblank(payload.member_address@) {
                    final(store).organizations@ == old(store).organizations@ && final(store).members@ == old(store).members@ && is_validation_failure(e) && e.message@
                        == "Member Address"@ + " is required"@
                } else if !is_nonblank(payload.gender@) {
                    final(store).organizations@ == old(store).organizations@ && final(store).members@ == old(store).members@ && is_validation_failure(e) && e.message@
                        == "Gender"@ + " is required"@
                } else if !is_valid_date_string(opt_str_view(payload.date_joined)) {
                    final(store).organizations@ == old(store).organizations@ && final(store).members@ == old(store).members@ && is_validation_failure(e) && e.message@
                        == "Date Joined"@ + " validation failed"@
                } else if !is_valid_date_string(opt_str_view(payload.date_of_birth)) {
                    final(store).organizations@ == old(store).organizations@ && final(store).members@ == old(store).members@ && is_validation_failure(e) && e.message@
                        == "Date of Birth"@ + " validation failed"@
                } else if org_phone_active(old(store).organizations@, payload.phone@) {
                    final(store).organizations@ == old(store).organizations@ && final(store).members@ == old(store).members@ && is_duplicate_resource(e) && e.message@
                        == "Organization With Contact "@ + payload.phone@ + " Exists"@
                } else if org_id_taken(old(store).organizations@, org_id@) || org_contact_taken(
                    old(store).organizations@,
                    payload.phone@,
                ) {
                    final(store).organizations@ == old(store).organizations@ && final(store).members@ == old(store).members@ && is_persistence_failure(e)
                } else {
                    &&& final(store).members@ == old(store).members@
                    &&& final(store).organizations@.len() == old(store).organizations@.len() + 1
                    &&& final(store).organizations@.subrange(
                        0,
                        old(store).organizations@.len() as int,
                    ) == old(store).organizations@
                    &&& spec_org_from_payload(
                        final(store).organizations@.last(),
                        *payload,
                        org_id@,
                        now,
                    )
                    &&& is_persistence_failure(e)
                    &&& !spec_reg_member_ok(*old(store), *payload, org_id@, member_id@, today)
                })
            },
        }),
{
    let name = match validator::required_str(payload.name.as_str(), "Name") {
        Ok(v) => v,
        Err(e) => {
            return Err(e);
        },
    };
    let email = match validator::email(payload.email.as_str(), "Email") {
        Ok(v) => v,
        Err(e) => {
            return Err(e);
        },
    };
    let mobile = match validator::mobile(payload.phone.as_str(), "Phone") {
        Ok(v) => v,
        Err(e) => {
            return Err(e);
        },
    };
    let address = match validator::required_str(payload.address.as_str(), "Address") {
        Ok(v) => v,
        Err(e) => {
            return Err(e);
        },
    };
    let first_name = match validator::required_str(payload.first_name.as_str(), "First Name") {
        Ok(v) => v,
        Err(e) => {
            return Err(e);
        },
    };
    let last_name = match validator::required_str(payload.last_name.as_str(), "Last Name") {
        Ok(v) => v,
        Err(e) => {
            return Err(e);
        },
    };
    proof {
        reveal_strlit("");
        assert(""@ =~= Seq::<char>::empty());
    }
    let member_email_arg = match &payload.member_email {
        Some(s) => s.as_str(),
        None => "",
    };
    let member_email = match validator::email(member_email_arg, "Member Email") {
        Ok(v) => v,
        Err(e) => {
            return Err(e);
        },
    };
    let member_phone = match validator::mobile(payload.member_phone.as_str(), "Member Phone") {
        Ok(v) => v,
        Err(e) => {
            return Err(e);
        },
    };
    let member_address = match validator::required_str(
        payload.member_address.as_str(),
        "Member Address",
    ) {
        Ok(v) => v,
        Err(e) => {
            return Err(e);
        },
    };
    let gender = match validator::required_str(payload.gender.as_str(), "Gender") {
        Ok(v) => v,
        Err(e) => {
            return Err(e);
        },
    };
    let dj_arg = match &payload.date_joined {
        Some(s) => s.as_str(),
        None => "",
    };
    let date_joined = match validator::date(dj_arg, "Date Joined") {
        Ok(v) => v,
        Err(e) => {
            return Err(e);
        },
    };
    let dob_arg = match &payload.date_of_birth {
        Some(s) => s.as_str(),
        None => "",
    };
    let date_of_birth = match validator::date(dob_arg, "Date of Birth") {
        Ok(v) => v,
        Err(e) => {
            return Err(e);
        },
    };
    if get_organization_by_phone(store, &mobile).is_some() {
        let mut msg = "Organization With Contact ".to_owned();
        msg.append(mobile.as_str());
        msg.append(" Exists");
        return Err(new_error(2001, msg.as_str(), 403));
    }
    let organization = AddOrganizationDto { name, email, phone: mobile, address };
    let oid = match save_organization(store, organization, org_id, now) {
        Ok(oid) => oid,
        Err(e) => {
            return Err(e);
        },
    };
    let data = SaveMemberOrgDto {
        first_name,
        last_name,
        email: Some(member_email),
        phone: member_phone,
        address: member_address,
        gender,
        date_joined: Some(date_joined),
        date_of_birth: Some(date_of_birth),
    };
    let mid = match save_member_from_org(store, &oid, data, member_id, now, today) {
        Ok(mid) => mid,
        Err(e) => {
            return Err(e);
        },
    };
    Ok(CreatedResponseModel { organization: oid, member: mid })
}

// ---------------------------------------------------------------------------
// Image upload: the computation around the file side effect.
// ---------------------------------------------------------------------------

/// What standard (non-URL) base64 decoding makes of a string.
pub uninterp spec fn b64std_decode_of(s: Seq<char>) -> Option<Seq<u8>>;

/// The decode error's rendered text for a string standard base64 refuses.
pub uninterp spec fn b64std_decode_err_of(s: Seq<char>) -> Seq<char>;

/// Relies on base64's `STANDARD` engine decode and its `DecodeError`
/// `Display` impl: both are functions of the input alone, so the bytes on
/// success and the rendered error text on failure are each deterministic.
#[verifier::external_body]
fn b64std_decode(s: &str) -> (r: Result<Vec<u8>, String>)
    ensures
        (match r {
            Ok(b) => b64std_decode_of(s@) == Some(b@),
            Err(t) => b64std_decode_of(s@) is None && t@ == b64std_decode_err_of(s@),
        }),
{
    match base64::Engine::decode(&base64::engine::general_purpose::STANDARD, s.as_bytes()) {
        Ok(bytes) => Ok(bytes),
        Err(e) => Err(format!("{}", e)),
    }
}

/// A non-blocked organization holds this id.
pub open spec fn org_active(os: Seq<OrganizationRecord>, id: Seq<char>) -> bool {
    exists|i: int| 0 <= i < os.len() && (#[trigger] os[i]).id@ == id && !os[i].is_blocked
}

/// Prepares an image upload: validates the owner id, decodes the base64
/// body, checks the owner exists and is not blocked, and fixes the
/// metadata the media row will carry. The caller performs the file write
/// and only then records the metadata.
pub fn upload_img(store: &Store, data: &UploadImgModel) -> (r: Result<(Vec<u8>, SaveMediaDto), Error>)
    ensures
        (match r {
            Ok(p) => {
                &&& is_uuid_chars(data.id@)
                &&& b64std_decode_of(data.data@) == Some(p.0@)
                &&& org_active(store.organizations@, data.id@)
                &&& p.1.file_path@ == "uploads/"@
                &&& p.1.mime_type@ == "image/png"@
                &&& p.1.file_size == 0
                &&& p.1.media_type@ == "image"@
                &&& p.1.width == Some(0i32)
                &&& p.1.height == Some(0i32)
                &&& p.1.duration == Some(0i32)
                &&& (exists|tag: Seq<char>|
                    is_uuid_chars(tag) && p.1.file_name@ == data.id@ + seq!['-'] + tag)
            },
            Err(e) => (if !is_uuid_chars(data.id@) {
                is_validation_failure(e) && e.message@ == "ID"@ + " is invalid"@
            } else if b64std_decode_of(data.data@) is None {
                e.code == 2001 && e.status == 400 && e.message@ == "Invalid Image with Error: "@
                    + b64std_decode_err_of(data.data@)
            } else {
                is_persistence_failure(e) && !org_active(store.organizations@, data.id@)
                    && e.message@ == "Organization not found or is blocked"@
            }),
        }),
{
    let id = match validator::uuid(data.id.as_str(), "ID") {
        Ok(v) => v,
        Err(e) => {
            return Err(e);
        },
    };
    let bytes = match b64std_decode(data.data.as_str()) {
        Ok(b) => b,
        Err(t) => {
            let mut msg = "Invalid Image with Error: ".to_owned();
            msg.append(t.as_str());
            return Err(new_error(2001, msg.as_str(), 400));
        },
    };
    if get_organization_by_id(store, &id).is_none() {
        return Err(new_error(2001, "Organization not found or is blocked", 500));
    }
    let tag = new_uuid_string();
    let mut file_name = id;
    file_name.append("-");
    file_name.append(tag.as_str());
    proof {
        reveal_strlit("-");
        assert("-"@ =~= seq!['-']);
    }
    let media = SaveMediaDto {
        file_path: "uploads/".to_owned(),
        mime_type: "image/png".to_owned(),
        file_size: 0,
        file_name,
        media_type: "image".to_owned(),
        width: Some(0),
        height: Some(0),
        duration: Some(0),
    };
    Ok((bytes, media))
}

/// Law: toggling an organization's blocked flag twice restores it.
pub proof fn lemma_org_toggle_twice(
    a: OrganizationRecord,
    b: OrganizationRecord,
    c: OrganizationRecord,
    t1: u64,
    t2: u64,
)
    requires
        spec_toggled_org(b, a, t1),
        spec_toggled_org(c, b, t2),
    ensures
        c.is_blocked == a.is_blocked,
        c.contact@ == a.contact@,
        c.id@ == a.id@,
{
}

} // verus!
