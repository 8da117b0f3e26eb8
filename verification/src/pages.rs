//! The pages the core answers with when no handler does: the two forms of
//! "not found", and the one for a handler that failed.

use crate::path::RoutePath;
use crate::response::{Response, Status};
use vstd::prelude::*;
use vstd::utf8::encode_utf8;

verus! {

/// What every page starts with, up to the place of its message.
pub const PAGE_OPENING: &'static str = "<!DOCTYPE html>
        <html lang=\"en\">
        <head>
            <meta charset=\"UTF-8\">
            <meta name=\"viewport\" content=\"width=device-width, initial-scale=1.0\">
            <link href=\"https://cdn.jsdelivr.net/npm/bootstrap@5.3.0-alpha3/dist/css/bootstrap.min.css\" rel=\"stylesheet\">
            <title>Simple Blog</title>
        </head>
        <body>
            <div class=\"container mt-5\">
                <header class=\"mb-4\">
                    <h1 class=\"text-center\">";

/// What every page ends with, from behind its message.
pub const PAGE_CLOSING: &'static str = "
                </header>
                <article class=\"card mb-3\">
                    <div class=\"card-body\">
                        <h2 class=\"card-title\">Welcome to the Blog!</h2>
                        <p class=\"card-text\">This is a simple blog page powered by Rust and Axum with Bootstrap styling. You can expand this to include dynamic content, user accounts, and more!</p>
                    </div>
                </article>
                <footer class=\"text-center\">
                    <p>&copy; 2024 Simple Blog. Powered by Rust and Bootstrap.</p>
                </footer>
            </div>
        </body>
        </html>
        ";

/// The heading of both forms of the "not found" page.
pub const NOT_FOUND_HEADING: &'static str = "<h1>404 Not Found</h1>";

/// What stands before the address of the link to the path on offer.
pub const SUGGESTION_OPENING: &'static str = "<p>Did you mean <a href=\"";

/// What stands between the address of that link and its text.
pub const SUGGESTION_MIDDLE: &'static str = "\">";

/// What stands behind the text of that link.
pub const SUGGESTION_CLOSING: &'static str = "</a>?</p>";

/// What the "not found" page says where no path is on offer.
pub const APOLOGY: &'static str =
    "<p>Sorry, we couldn't find the page you were looking for.</p>";

/// What the page for a handler that failed says.
pub const SERVER_ERROR_MESSAGE: &'static str =
    "<h1>500 Internal Server Error</h1><p>Sorry, something went wrong on our side.</p>";

/// The message of the "not found" page: with a path on offer, a link to
/// it; with none, an apology.
pub open spec fn not_found_message(offered: Option<Seq<char>>) -> Seq<char> {
    match offered {
        Some(path) => NOT_FOUND_HEADING@ + SUGGESTION_OPENING@ + path + SUGGESTION_MIDDLE@ + path
            + SUGGESTION_CLOSING@,
        None => NOT_FOUND_HEADING@ + APOLOGY@,
    }
}

/// A page around `message`.
pub open spec fn page(message: Seq<char>) -> Seq<char> {
    PAGE_OPENING@ + message + PAGE_CLOSING@
}

/// The view of a path that may be absent.
pub open spec fn offered_text(offered: Option<&RoutePath>) -> Option<Seq<char>> {
    match offered {
        Some(path) => Some(path@),
        None => None,
    }
}

/// The text of the "not found" page.
pub fn not_found_page(offered: Option<&RoutePath>) -> (text: String)
    ensures
        text@ == page(not_found_message(offered_text(offered))),
{
    let mut text = String::from_str(PAGE_OPENING);
    text.append(NOT_FOUND_HEADING);
    match offered {
        Some(path) => {
            text.append(SUGGESTION_OPENING);
            text.append(path.as_str());
            text.append(SUGGESTION_MIDDLE);
            text.append(path.as_str());
            text.append(SUGGESTION_CLOSING);
        },
        None => {
            text.append(APOLOGY);
        },
    }
    text.append(PAGE_CLOSING);
    assert(text@ =~= page(not_found_message(offered_text(offered))));
    text
}

/// The text of the page for a handler that failed.
pub fn server_error_page() -> (text: String)
    ensures
        text@ == page(SERVER_ERROR_MESSAGE@),
{
    let mut text = String::from_str(PAGE_OPENING);
    text.append(SERVER_ERROR_MESSAGE);
    text.append(PAGE_CLOSING);
    text
}

/// The response to a request for an unknown path: status 404, and the "not
/// found" page, which names the path on offer where there is one.
pub fn not_found(offered: Option<&RoutePath>) -> (response: Response)
    ensures
        response.status == Status::NotFound,
        response.body@ == encode_utf8(page(not_found_message(offered_text(offered)))),
{
    let text = not_found_page(offered);
    Response { status: Status::NotFound, body: text.as_str().as_bytes_vec() }
}

/// The response sent in place of the output of a handler that failed:
/// status 500 and a page that says no more than that.
pub fn server_error() -> (response: Response)
    ensures
        response.status == Status::InternalServerError,
        response.body@ == encode_utf8(page(SERVER_ERROR_MESSAGE@)),
{
    let text = server_error_page();
    Response { status: Status::InternalServerError, body: text.as_str().as_bytes_vec() }
}

} // verus!
