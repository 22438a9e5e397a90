//! The pages that serve an OpenAPI document to people: which viewer, where it is
//! mounted, which document it loads and which icon it shows.
use vstd::prelude::*;

verus! {

/// The OpenAPI viewers that can be mounted.
#[derive(Debug, Clone, Copy, PartialEq, Eq, Structural)]
pub enum DocUi {
    Swagger,
    RapiDoc,
    ReDoc,
    Scalar,
}

/// A documentation page: the viewer, the URL of the OpenAPI document it loads, the
/// path it is mounted at, and the URL of its icon.
#[derive(Debug)]
pub struct DocRoute {
    pub ui: DocUi,
    pub spec_url: String,
    pub path: String,
    pub favicon: String,
}

/// The page of viewer `ui` for the document at `data`, mounted at `path`.
pub fn doc_route(ui: DocUi, data: &str, path: String, favicon: String) -> (res: DocRoute)
    ensures
        res.ui == ui,
        res.spec_url@ == data@,
        res.path == path,
        res.favicon == favicon,
{
    DocRoute { ui, spec_url: String::from_str(data), path, favicon }
}

/// A Swagger UI page.
pub fn ui_swagger(data: &str, path: String, favicon: String) -> (res: DocRoute)
    ensures
        res.ui == DocUi::Swagger,
        res.spec_url@ == data@,
        res.path == path,
        res.favicon == favicon,
{
    doc_route(DocUi::Swagger, data, path, favicon)
}

/// A RapiDoc page.
pub fn ui_rapidoc(data: &str, path: String, favicon: String) -> (res: DocRoute)
    ensures
        res.ui == DocUi::RapiDoc,
        res.spec_url@ == data@,
        res.path == path,
        res.favicon == favicon,
{
    doc_route(DocUi::RapiDoc, data, path, favicon)
}

/// A ReDoc page.
pub fn ui_redoc(data: &str, path: String, favicon: String) -> (res: DocRoute)
    ensures
        res.ui == DocUi::ReDoc,
        res.spec_url@ == data@,
        res.path == path,
        res.favicon == favicon,
{
    doc_route(DocUi::ReDoc, data, path, favicon)
}

/// A Scalar page.
pub fn ui_scalar(data: &str, path: String, favicon: String) -> (res: DocRoute)
    ensures
        res.ui == DocUi::Scalar,
        res.spec_url@ == data@,
        res.path == path,
        res.favicon == favicon,
{
    doc_route(DocUi::Scalar, data, path, favicon)
}

/// The icon shown by the Swagger UI page.
pub open spec fn swagger_favicon() -> Seq<char> {
    "https://static1.smartbear.co/swagger/media/assets/swagger_fav.png"@
}

/// The icon shown by the RapiDoc page.
pub open spec fn rapidoc_favicon() -> Seq<char> {
    "https://rapidocweb.com/images/logo.png"@
}

/// The icon shown by the ReDoc page.
pub open spec fn redoc_favicon() -> Seq<char> {
    "https://redocly.com/assets/favicon.5465de6f2fccf1152f5965257241d831a8917043c85baf743706ae2e57736946.8a5edab2.ico"@
}

/// The icon shown by the Scalar page.
pub open spec fn scalar_favicon() -> Seq<char> {
    "https://avatars.githubusercontent.com/u/301879"@
}

/// All four viewers for the document at `data`: Swagger UI at `/swagger-ui`, RapiDoc at
/// `/rapidoc`, ReDoc at `/redoc` and Scalar at `/scalar`, each with its own icon.
pub fn ui_all(data: &str) -> (res: Vec<DocRoute>)
    ensures
        res.len() == 4,
        forall|i: int| 0 <= i < 4 ==> (#[trigger] res[i]).spec_url@ == data@,
        res[0].ui == DocUi::Swagger,
        res[0].path@ == "/swagger-ui"@,
        res[0].favicon@ == swagger_favicon(),
        res[1].ui == DocUi::RapiDoc,
        res[1].path@ == "/rapidoc"@,
        res[1].favicon@ == rapidoc_favicon(),
        res[2].ui == DocUi::ReDoc,
        res[2].path@ == "/redoc"@,
        res[2].favicon@ == redoc_favicon(),
        res[3].ui == DocUi::Scalar,
        res[3].path@ == "/scalar"@,
        res[3].favicon@ == scalar_favicon(),
{
    let mut pages: Vec<DocRoute> = Vec::new();
    pages.push(
        ui_swagger(
            data,
            String::from_str("/swagger-ui"),
            String::from_str("https://static1.smartbear.co/swagger/media/assets/swagger_fav.png"),
        ),
    );
    pages.push(
        ui_rapidoc(data, String::from_str("/rapidoc"), String::from_str("https://rapidocweb.com/images/logo.png")),
    );
    pages.push(
        ui_redoc(
            data,
            String::from_str("/redoc"),
            String::from_str(
                "https://redocly.com/assets/favicon.5465de6f2fccf1152f5965257241d831a8917043c85baf743706ae2e57736946.8a5edab2.ico",
            ),
        ),
    );
    pages.push(
        ui_scalar(data, String::from_str("/scalar"), String::from_str("https://avatars.githubusercontent.com/u/301879")),
    );
    pages
}

} // verus!
