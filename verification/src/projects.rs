//! Project registry of a deployment: validating a new project and the
//! answers of the project endpoints.

use vstd::prelude::*;

use crate::errors::{api_error, api_error_msg, ApiError};
use crate::text::{concat3, string_of, trim, trimmed};

verus! {

/// Creation of a project from a brand; its id is derived from the name.
#[derive(Debug)]
pub struct CreateProjectRequest {
    pub name: String,
    pub variants: Vec<String>,
    pub site_url: Option<String>,
}

/// Answer of a creation.
#[derive(Debug)]
pub struct CreateProjectResponse {
    pub project_id: String,
    pub name: String,
}

/// The name of the new project, trimmed: 400 `invalid_request` when blank.
pub fn project_name(req: &CreateProjectRequest) -> (r: Result<String, ApiError>)
    ensures
        match r {
            Ok(n) => trim(req.name@).len() > 0 && n@ == trim(req.name@),
            Err(e) => trim(req.name@).len() == 0 && e.status == 400 && e.error@ == "invalid_request"@
                && e.message@ == "project name must not be empty"@,
        },
{
    let n = trimmed(req.name.as_str());
    if n.len() == 0 {
        return Err(api_error(400, "invalid_request", "project name must not be empty"));
    }
    Ok(string_of(&n))
}

/// 409 when a project of that name exists already (ids derive from names).
pub fn project_exists(name: &str) -> (e: ApiError)
    ensures
        e.status == 409,
        e.error@ == "project_exists"@,
        e.message@ == "a project named `"@ + name@ + "` already exists"@,
{
    api_error_msg(409, "project_exists", concat3("a project named `", name, "` already exists"))
}

/// 404 for a path id that is not a project id: it can name no project.
pub fn invalid_project_id(raw: &str) -> (e: ApiError)
    ensures
        e.status == 404,
        e.error@ == "project_not_found"@,
        e.message@ == "`"@ + raw@ + "` is not a valid project id"@,
{
    api_error_msg(404, "project_not_found", concat3("`", raw, "` is not a valid project id"))
}

/// 404 for a well-formed id that names no project.
pub fn project_not_found(raw: &str) -> (e: ApiError)
    ensures
        e.status == 404,
        e.error@ == "project_not_found"@,
        e.message@ == "no project with id `"@ + raw@ + "`"@,
{
    api_error_msg(404, "project_not_found", concat3("no project with id `", raw, "`"))
}

/// 500 carrying a storage failure.
pub fn storage_error(message: String) -> (e: ApiError)
    ensures
        e.status == 500,
        e.error@ == "storage_error"@,
        e.message@ == message@,
{
    api_error_msg(500, "storage_error", message)
}

/// The answer of a creation (201).
pub fn created_project(project_id: String, name: String) -> (r: CreateProjectResponse)
    ensures
        r.project_id == project_id,
        r.name == name,
{
    CreateProjectResponse { project_id, name }
}

} // verus!
