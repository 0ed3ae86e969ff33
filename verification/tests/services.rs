use base64::Engine;

use membership_core::claims::Claims;
use membership_core::dates::Date;
use membership_core::members::add_member;
use membership_core::members::get_all_members;
use membership_core::members::get_member_by_id;
use membership_core::members::get_member_by_phone;
use membership_core::members::toggle_member_blocked;
use membership_core::members::update_member;
use membership_core::models::AddMemberModel;
use membership_core::models::AddOrganizationModel;
use membership_core::models::SaveMediaDto;
use membership_core::models::UpdateMemberDto;
use membership_core::models::UpdateOrganizationDto;
use membership_core::models::UploadImgModel;
use membership_core::organizations::add_organization;
use membership_core::organizations::get_organization_by_email;
use membership_core::organizations::get_organization_by_phone;
use membership_core::organizations::get_organizations;
use membership_core::organizations::toggle_block;
use membership_core::organizations::update_organization;
use membership_core::organizations::upload_img;
use membership_core::shared::get_media_by_id;
use membership_core::shared::get_media_by_user;
use membership_core::shared::save_media_meta;
use membership_core::store::Store;

const ORG_ID: &str = "123e4567-e89b-12d3-a456-426614174000";
const MEMBER_ID: &str = "223e4567-e89b-12d3-a456-426614174000";

fn empty_store() -> Store {
    Store { members: Vec::new(), organizations: Vec::new(), media: Vec::new() }
}

fn today() -> Date {
    Date { year: 2026, month: 1, day: 1 }
}

fn org_payload(phone: &str, member_phone: &str) -> AddOrganizationModel {
    AddOrganizationModel {
        name: String::from("Acme"),
        email: String::from("acme@example.com"),
        phone: String::from(phone),
        address: String::from("1 Main St"),
        first_name: String::from("Ada"),
        last_name: String::from("Lovelace"),
        member_email: Some(String::from("ada@example.com")),
        member_phone: String::from(member_phone),
        member_address: String::from("2 Side St"),
        gender: String::from("female"),
        date_joined: Some(String::from("2020-01-02")),
        date_of_birth: Some(String::from("1990-06-15")),
    }
}

fn registered_store() -> Store {
    let mut store = empty_store();
    let res = add_organization(
        &mut store,
        &org_payload("0123456789", "0987654321"),
        String::from(ORG_ID),
        String::from(MEMBER_ID),
        100,
        today(),
    )
    .unwrap();
    assert_eq!(res.organization, ORG_ID);
    assert_eq!(res.member, MEMBER_ID);
    store
}

fn claims_for_org(org: &str) -> Claims {
    Claims {
        iat: 0,
        exp: 1000,
        jid: String::from("323e4567-e89b-12d3-a456-426614174000"),
        id: String::from(MEMBER_ID),
        _id: String::from(org),
    }
}

fn member_payload(phone: &str) -> AddMemberModel {
    AddMemberModel {
        first_name: String::from("Grace"),
        last_name: String::from("Hopper"),
        email: Some(String::from("grace@example.com")),
        phone: String::from(phone),
        address: String::from("3 Pier Rd"),
        gender: String::from("female"),
        date_joined: Some(String::from("2021-03-04")),
    }
}

#[test]
fn register_organization_creates_org_and_member() {
    let store = registered_store();
    assert_eq!(store.organizations.len(), 1);
    assert_eq!(store.members.len(), 1);
    let org = &store.organizations[0];
    assert_eq!(org.id, ORG_ID);
    assert_eq!(org.name, "Acme");
    assert_eq!(org.email.as_deref(), Some("acme@example.com"));
    assert_eq!(org.contact, "0123456789");
    assert!(!org.is_blocked);
    assert_eq!(org.created_at, 100);
    let m = &store.members[0];
    assert_eq!(m.id, MEMBER_ID);
    assert_eq!(m.first_name, "Ada");
    assert_eq!(m.contact, "0987654321");
    assert_eq!(m.organization_id, ORG_ID);
    assert_eq!(m.department, "not_selected");
    assert_eq!(m.date_joined, Some(Date { year: 2020, month: 1, day: 2 }));
    assert_eq!(m.date_of_birth, Some(Date { year: 1990, month: 6, day: 15 }));
    assert!(!m.is_blocked);
}

#[test]
fn register_same_phone_twice_is_duplicate_not_crash() {
    let mut store = registered_store();
    let err = add_organization(
        &mut store,
        &org_payload("0123456789", "0987650000"),
        String::from("423e4567-e89b-12d3-a456-426614174000"),
        String::from("523e4567-e89b-12d3-a456-426614174000"),
        200,
        today(),
    )
    .unwrap_err();
    assert_eq!(err.code, 2001);
    assert_eq!(err.status, 403);
    assert_eq!(err.message, "Organization With Contact 0123456789 Exists");
    assert_eq!(store.organizations.len(), 1);
    assert_eq!(store.members.len(), 1);
}

#[test]
fn register_rejects_invalid_fields_fail_fast() {
    let mut store = empty_store();
    let mut p = org_payload("0123456789", "0987654321");
    p.email = String::from("not-an-email");
    let err = add_organization(
        &mut store,
        &p,
        String::from(ORG_ID),
        String::from(MEMBER_ID),
        100,
        today(),
    )
    .unwrap_err();
    assert_eq!(err.code, 1002);
    assert_eq!(err.status, 422);
    assert_eq!(err.message, "Email validation failed");
    assert!(store.organizations.is_empty());
}

#[test]
fn add_member_then_duplicate_contact_rejected() {
    let mut store = registered_store();
    let claims = claims_for_org(ORG_ID);
    let id1 = add_member(
        &mut store,
        &claims,
        &member_payload("0111111111"),
        String::from("623e4567-e89b-12d3-a456-426614174000"),
        300,
        today(),
    )
    .unwrap();
    assert_eq!(id1, "623e4567-e89b-12d3-a456-426614174000");
    assert_eq!(store.members.len(), 2);
    let err = add_member(
        &mut store,
        &claims,
        &member_payload("0111111111"),
        String::from("723e4567-e89b-12d3-a456-426614174000"),
        400,
        today(),
    )
    .unwrap_err();
    assert_eq!(err.code, 2001);
    assert_eq!(err.status, 403);
    assert_eq!(err.message, "Member With Contact 0111111111 Exists");
    assert_eq!(store.members.len(), 2);
}

#[test]
fn add_member_validation_errors() {
    let mut store = registered_store();
    let claims = claims_for_org(ORG_ID);
    let mut p = member_payload("0111111111");
    p.phone = String::from("123");
    let err = add_member(
        &mut store,
        &claims,
        &p,
        String::from("623e4567-e89b-12d3-a456-426614174000"),
        300,
        today(),
    )
    .unwrap_err();
    assert_eq!(err.message, "Phone validation failed");
    let mut p = member_payload("0111111111");
    p.date_joined = None;
    let err = add_member(
        &mut store,
        &claims,
        &p,
        String::from("623e4567-e89b-12d3-a456-426614174000"),
        300,
        today(),
    )
    .unwrap_err();
    assert_eq!(err.message, "Date Joined validation failed");
}

#[test]
fn add_member_blocked_contact_hits_store_constraint() {
    let mut store = registered_store();
    let claims = claims_for_org(ORG_ID);
    add_member(
        &mut store,
        &claims,
        &member_payload("0111111111"),
        String::from("623e4567-e89b-12d3-a456-426614174000"),
        300,
        today(),
    )
    .unwrap();
    // Block the new member: the handler-level check no longer sees it,
    // but the unique column still rejects the insert.
    toggle_member_blocked(&mut store, &String::from("623e4567-e89b-12d3-a456-426614174000"), 350)
        .unwrap();
    let err = add_member(
        &mut store,
        &claims,
        &member_payload("0111111111"),
        String::from("823e4567-e89b-12d3-a456-426614174000"),
        400,
        today(),
    )
    .unwrap_err();
    assert_eq!(err.code, 2001);
    assert_eq!(err.status, 500);
}

#[test]
fn partial_update_changes_only_named_fields() {
    let mut store = registered_store();
    let before_last = store.members[0].last_name.clone();
    let before_email = store.members[0].email.clone();
    let before_contact = store.members[0].contact.clone();
    let before_address = store.members[0].residential_address.clone();
    let before_gender = store.members[0].gender.clone();
    let before_department = store.members[0].department.clone();
    let before_blocked = store.members[0].is_blocked;
    let before_created = store.members[0].created_at;
    let dto = UpdateMemberDto {
        first_name: Some(String::from("X")),
        last_name: None,
        email: None,
        phone: None,
        address: None,
        gender: None,
        department: None,
        aux_department: None,
        sub_department: None,
        member_type: None,
    };
    let i = update_member(&mut store, &String::from(MEMBER_ID), dto, 999).unwrap();
    let m = &store.members[i];
    assert_eq!(m.first_name, "X");
    assert_eq!(m.last_name, before_last);
    assert_eq!(m.email, before_email);
    assert_eq!(m.contact, before_contact);
    assert_eq!(m.residential_address, before_address);
    assert_eq!(m.gender, before_gender);
    assert_eq!(m.department, before_department);
    assert_eq!(m.is_blocked, before_blocked);
    assert_eq!(m.created_at, before_created);
    assert_eq!(m.updated_at, 999);
}

#[test]
fn update_rejects_absent_or_invalid() {
    let mut store = registered_store();
    let dto = UpdateMemberDto {
        first_name: None,
        last_name: None,
        email: None,
        phone: None,
        address: None,
        gender: None,
        department: None,
        aux_department: None,
        sub_department: None,
        member_type: None,
    };
    let err = update_member(&mut store, &String::from("923e4567-e89b-12d3-a456-426614174000"), dto, 1)
        .unwrap_err();
    assert_eq!(err.code, 2001);
    assert_eq!(err.status, 500);
    assert_eq!(err.message, "Member not found");
    let dto = UpdateMemberDto {
        first_name: None,
        last_name: None,
        email: None,
        phone: None,
        address: None,
        gender: None,
        department: Some(String::from("sales")),
        aux_department: None,
        sub_department: None,
        member_type: None,
    };
    let err = update_member(&mut store, &String::from(MEMBER_ID), dto, 1).unwrap_err();
    assert_eq!(err.code, 2001);
    assert_eq!(err.status, 500);
    assert_eq!(err.message, "Invalid department");
    let dto = UpdateMemberDto {
        first_name: None,
        last_name: None,
        email: None,
        phone: None,
        address: None,
        gender: None,
        department: Some(String::from("youth")),
        aux_department: None,
        sub_department: None,
        member_type: Some(String::from("pastor")),
    };
    update_member(&mut store, &String::from(MEMBER_ID), dto, 2).unwrap();
    assert_eq!(store.members[0].department, "youth");
    assert_eq!(store.members[0].member_type, "pastor");
}

#[test]
fn toggle_member_twice_restores_state() {
    let mut store = registered_store();
    let id = String::from(MEMBER_ID);
    assert!(!store.members[0].is_blocked);
    toggle_member_blocked(&mut store, &id, 10).unwrap();
    assert!(store.members[0].is_blocked);
    toggle_member_blocked(&mut store, &id, 20).unwrap();
    assert!(!store.members[0].is_blocked);
    assert_eq!(store.members[0].updated_at, 20);
    let err = toggle_member_blocked(
        &mut store,
        &String::from("923e4567-e89b-12d3-a456-426614174000"),
        30,
    )
    .unwrap_err();
    assert_eq!(err.message, "Member not found");
}

#[test]
fn toggle_org_twice_restores_state() {
    let mut store = registered_store();
    let id = String::from(ORG_ID);
    toggle_block(&mut store, &id, 10).unwrap();
    assert!(store.organizations[0].is_blocked);
    // A blocked organization is invisible to the phone lookup the
    // registration duplicate rule uses.
    assert!(get_organization_by_phone(&store, &String::from("0123456789")).is_none());
    toggle_block(&mut store, &id, 20).unwrap();
    assert!(!store.organizations[0].is_blocked);
    assert!(get_organization_by_phone(&store, &String::from("0123456789")).is_some());
}

#[test]
fn update_blocked_organization_is_not_found() {
    let mut store = registered_store();
    toggle_block(&mut store, &String::from(ORG_ID), 10).unwrap();
    let dto = UpdateOrganizationDto {
        name: Some(String::from("Acme 2")),
        email: None,
        phone: None,
        address: None,
    };
    let err = update_organization(&mut store, &String::from(ORG_ID), dto, 20).unwrap_err();
    assert_eq!(err.code, 2001);
    assert_eq!(err.status, 500);
    assert_eq!(err.message, "Organization not found");
    assert_eq!(store.organizations[0].name, "Acme");
    assert_eq!(store.organizations[0].updated_at, 10);
}

#[test]
fn update_organization_partial_patch() {
    let mut store = registered_store();
    let dto = UpdateOrganizationDto {
        name: Some(String::from("Acme 2")),
        email: None,
        phone: None,
        address: None,
    };
    let i = update_organization(&mut store, &String::from(ORG_ID), dto, 77).unwrap();
    let o = &store.organizations[i];
    assert_eq!(o.name, "Acme 2");
    assert_eq!(o.contact, "0123456789");
    assert_eq!(o.email.as_deref(), Some("acme@example.com"));
    assert_eq!(o.updated_at, 77);
}

#[test]
fn lookups_see_what_was_written() {
    let store = registered_store();
    assert!(get_member_by_phone(&store, &String::from("0987654321")).is_some());
    assert!(get_member_by_phone(&store, &String::from("0000000001")).is_none());
    assert!(get_member_by_id(&store, &String::from(MEMBER_ID)).is_some());
    assert_eq!(get_all_members(&store).len(), 1);
    assert_eq!(get_organizations(&store).len(), 1);
    assert!(get_organization_by_email(&store, &String::from("acme@example.com")).is_some());
    assert!(get_organization_by_email(&store, &String::from("other@example.com")).is_none());
}

#[test]
fn media_flow_records_after_file_write() {
    let mut store = registered_store();
    let img = UploadImgModel {
        id: String::from(ORG_ID),
        data: base64::engine::general_purpose::STANDARD.encode(b"hello"),
    };
    let (bytes, meta) = upload_img(&store, &img).unwrap();
    assert_eq!(bytes, b"hello");
    assert_eq!(meta.file_path, "uploads/");
    assert_eq!(meta.mime_type, "image/png");
    assert_eq!(meta.media_type, "image");
    assert!(meta.file_name.starts_with(&format!("{}-", ORG_ID)));
    let media_id = String::from("a23e4567-e89b-12d3-a456-426614174000");
    let err = save_media_meta(&mut store, &String::from(ORG_ID), clone_meta(&meta), false, media_id.clone(), 50)
        .unwrap_err();
    assert_eq!(err.message, "File does not exist");
    assert_eq!(err.code, 2001);
    assert_eq!(err.status, 500);
    assert!(store.media.is_empty());
    save_media_meta(&mut store, &String::from(ORG_ID), clone_meta(&meta), true, media_id.clone(), 50).unwrap();
    assert_eq!(store.media.len(), 1);
    assert!(get_media_by_id(&store, &media_id).is_some());
    let owned = get_media_by_user(&store, &String::from(ORG_ID));
    assert_eq!(owned, vec![0]);
    assert!(get_media_by_user(&store, &String::from(MEMBER_ID)).is_empty());
}

fn clone_meta(m: &SaveMediaDto) -> SaveMediaDto {
    SaveMediaDto {
        file_name: m.file_name.clone(),
        mime_type: m.mime_type.clone(),
        file_path: m.file_path.clone(),
        file_size: m.file_size,
        media_type: m.media_type.clone(),
        width: m.width,
        height: m.height,
        duration: m.duration,
    }
}

#[test]
fn upload_rejects_bad_id_data_and_missing_owner() {
    let store = registered_store();
    let img = UploadImgModel { id: String::from("nope"), data: String::from("aGVsbG8=") };
    let err = upload_img(&store, &img).unwrap_err();
    assert_eq!(err.code, 1002);
    assert_eq!(err.message, "ID is invalid");
    let img = UploadImgModel { id: String::from(ORG_ID), data: String::from("!!!not-base64!!!") };
    let err = upload_img(&store, &img).unwrap_err();
    assert_eq!(err.code, 2001);
    assert_eq!(err.status, 400);
    let decode_err = base64::engine::general_purpose::STANDARD
        .decode("!!!not-base64!!!")
        .unwrap_err();
    assert_eq!(err.message, format!("Invalid Image with Error: {}", decode_err));
    assert!(err.message.starts_with("Invalid Image with Error: "));
    let img = UploadImgModel {
        id: String::from("923e4567-e89b-12d3-a456-426614174000"),
        data: String::from("aGVsbG8="),
    };
    let err = upload_img(&store, &img).unwrap_err();
    assert_eq!(err.code, 2001);
    assert_eq!(err.status, 500);
    assert_eq!(err.message, "Organization not found or is blocked");
}
