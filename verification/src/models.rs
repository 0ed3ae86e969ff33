//! Request and transfer models: plain values handed in by the transport
//! layer and passed between the entity services.

use vstd::prelude::*;

use crate::dates::Date;

verus! {

/// Raw member-creation request, as the transport hands it over.
#[derive(Debug)]
pub struct AddMemberModel {
    pub first_name: String,
    pub last_name: String,
    pub email: Option<String>,
    pub phone: String,
    pub address: String,
    pub gender: String,
    pub date_joined: Option<String>,
}

/// Validated member-creation payload bound to an organization.
#[derive(Debug)]
pub struct AddMemberDto {
    pub first_name: String,
    pub last_name: String,
    pub email: Option<String>,
    pub phone: String,
    pub organization_id: String,
    pub address: String,
    pub gender: String,
    pub date_joined: Option<Date>,
}

/// Partial member update: absent fields are left untouched.
#[derive(Debug)]
pub struct UpdateMemberDto {
    pub first_name: Option<String>,
    pub last_name: Option<String>,
    pub email: Option<String>,
    pub phone: Option<String>,
    pub address: Option<String>,
    pub gender: Option<String>,
    pub department: Option<String>,
    pub aux_department: Option<String>,
    pub sub_department: Option<String>,
    pub member_type: Option<String>,
}

/// Raw organization-registration request: the organization's own fields
/// plus its primary contact, who becomes the first member.
#[derive(Debug)]
pub struct AddOrganizationModel {
    pub name: String,
    pub email: String,
    pub phone: String,
    pub address: String,
    pub first_name: String,
    pub last_name: String,
    pub member_email: Option<String>,
    pub member_phone: String,
    pub member_address: String,
    pub gender: String,
    pub date_joined: Option<String>,
    pub date_of_birth: Option<String>,
}

/// Validated organization-creation payload.
#[derive(Debug)]
pub struct AddOrganizationDto {
    pub name: String,
    pub email: String,
    pub phone: String,
    pub address: String,
}

/// Partial organization update: absent fields are left untouched.
#[derive(Debug)]
pub struct UpdateOrganizationDto {
    pub name: Option<String>,
    pub email: Option<String>,
    pub phone: Option<String>,
    pub address: Option<String>,
}

/// What a successful registration reports back: both fresh ids.
#[derive(Debug)]
pub struct CreatedResponseModel {
    pub organization: String,
    pub member: String,
}

/// Raw image-upload request: an owner id and base64 data.
#[derive(Debug)]
pub struct UploadImgModel {
    pub id: String,
    pub data: String,
}

/// The first member created alongside an organization.
#[derive(Debug)]
pub struct SaveMemberOrgDto {
    pub first_name: String,
    pub last_name: String,
    pub email: Option<String>,
    pub phone: String,
    pub address: String,
    pub gender: String,
    pub date_joined: Option<Date>,
    pub date_of_birth: Option<Date>,
}

/// File metadata stored for an uploaded media object.
#[derive(Debug)]
pub struct SaveMediaDto {
    pub file_name: String,
    pub mime_type: String,
    pub file_path: String,
    pub file_size: i64,
    pub media_type: String,
    pub width: Option<i32>,
    pub height: Option<i32>,
    pub duration: Option<i32>,
}

/// The view of an optional string argument a validator receives: the
/// string itself, or empty when absent.
pub open spec fn opt_str_view(o: Option<String>) -> Seq<char> {
    match o {
        Some(s) => s@,
        None => Seq::empty(),
    }
}

} // verus!
