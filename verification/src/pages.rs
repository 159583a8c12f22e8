//! The confirmation landing pages: one themed HTML skeleton, instantiated
//! for each workflow with a page name, a headline and a message.

use vstd::prelude::*;
use vstd::string::*;

verus! {

/// The exact text of a rendered page: the fixed skeleton with the page
/// name, the headline and the message spliced in.
pub open spec fn page_text(name: Seq<char>, title: Seq<char>, message: Seq<char>) -> Seq<char> {
    "<head>\n<meta charset=\"utf-8\" />\n<title>"@ + name
        + "</title>\n</head>\n<body style=\"background-color: black; color: white;\">\n<div style=\"display: flex; justify-content: center; align-items: center; text-align: center; min-height: 100vh; flex-direction: column\">\n<h1>"@
        + title + "</h1>\n<p>"@ + message + "</p>\n</div>\n</body>\n"@
}

/// Renders the shared skeleton.
fn render_page(name: &str, title: &str, message: &str) -> (r: String)
    ensures
        r@ == page_text(name@, title@, message@),
{
    let mut s = String::from_str("<head>\n<meta charset=\"utf-8\" />\n<title>");
    s.append(name);
    s.append(
        "</title>\n</head>\n<body style=\"background-color: black; color: white;\">\n<div style=\"display: flex; justify-content: center; align-items: center; text-align: center; min-height: 100vh; flex-direction: column\">\n<h1>",
    );
    s.append(title);
    s.append("</h1>\n<p>");
    s.append(message);
    s.append("</p>\n</div>\n</body>\n");
    proof {
        assert(s@ =~= page_text(name@, title@, message@));
    }
    s
}

/// The landing page shown when a registration verification link is opened.
pub fn get_verification_page(title: &str, message: &str) -> (r: String)
    ensures
        r@ == page_text("WiedzieLISCIE verification"@, title@, message@),
{
    render_page("WiedzieLISCIE verification", title, message)
}

/// The landing page shown when a password-reset link is opened.
pub fn get_password_reset_page(title: &str, message: &str) -> (r: String)
    ensures
        r@ == page_text("WiedzieLISCIE password reset"@, title@, message@),
{
    render_page("WiedzieLISCIE password reset", title, message)
}

/// The landing page shown when an email-update link is opened.
pub fn get_email_update_page(title: &str, message: &str) -> (r: String)
    ensures
        r@ == page_text("WiedzieLISCIE email update"@, title@, message@),
{
    render_page("WiedzieLISCIE email update", title, message)
}

/// The landing page shown when an account-deletion link is opened.
pub fn get_delete_user_page(title: &str, message: &str) -> (r: String)
    ensures
        r@ == page_text("WiedzieLISCIE account deletion"@, title@, message@),
{
    render_page("WiedzieLISCIE account deletion", title, message)
}

} // verus!
