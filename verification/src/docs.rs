//! The pages that present the OpenAPI document.

use vstd::prelude::*;

verus! {

/// The Swagger UI page, which loads `/openapi.json`.
pub const SWAGGER_PAGE: &'static str = r#"<!DOCTYPE html>
<html>
<head>
  <title>RustAPI — Swagger UI</title>
  <meta charset="utf-8"/>
  <meta name="viewport" content="width=device-width, initial-scale=1">
  <link rel="stylesheet" href="https://unpkg.com/swagger-ui-dist@5/swagger-ui.css">
</head>
<body>
<div id="swagger-ui"></div>
<script src="https://unpkg.com/swagger-ui-dist@5/swagger-ui-bundle.js"></script>
<script>
  window.onload = () => {
    SwaggerUIBundle({
      url: '/openapi.json',
      dom_id: '#swagger-ui',
      presets: [SwaggerUIBundle.presets.apis, SwaggerUIBundle.SwaggerUIStandalonePreset],
      layout: 'BaseLayout',
      deepLinking: true,
      tryItOutEnabled: true,
    });
  };
</script>
</body>
</html>
"#;

/// The ReDoc page, which loads `/openapi.json`.
pub const REDOC_PAGE: &'static str = r#"<!DOCTYPE html>
<html>
<head>
  <title>RustAPI — ReDoc</title>
  <meta charset="utf-8"/>
  <meta name="viewport" content="width=device-width, initial-scale=1">
  <link href="https://fonts.googleapis.com/css?family=Montserrat:300,400,700|Roboto:300,400,700" rel="stylesheet">
  <style>body { margin: 0; padding: 0; }</style>
</head>
<body>
  <redoc spec-url='/openapi.json'></redoc>
  <script src="https://cdn.redoc.ly/redoc/latest/bundles/redoc.standalone.js"></script>
</body>
</html>
"#;

/// Builds the Swagger UI page.
pub fn build_swagger_page() -> (r: String)
    ensures
        r@ == SWAGGER_PAGE@,
{
    String::from_str(SWAGGER_PAGE)
}

/// Builds the ReDoc page.
pub fn build_redoc_page() -> (r: String)
    ensures
        r@ == REDOC_PAGE@,
{
    String::from_str(REDOC_PAGE)
}

} // verus!
