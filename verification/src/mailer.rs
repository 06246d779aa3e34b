//! The computed parts of the outbound emails: link query strings, subjects
//! and titles. Templating and transport stay with the process edge; it
//! receives these plain values.
use vstd::prelude::*;
use vstd::string::StringExecFns;

verus! {

/// Whose email address a confirmation email confirms.
pub enum ConfirmEmailRecipientType {
    User,
    Organization,
}

/// The query string of the recover-password frontend link, carrying the
/// freshly issued reset claims token.
pub fn recover_password_link_query(reset_password_token: &str) -> (r: String)
    ensures
        r@ == "token="@ + reset_password_token@,
{
    let mut q = String::from_str("token=");
    q.append(reset_password_token);
    q
}

/// The query string of the confirm-email frontend link: the token, and for
/// organizations the marker of whom the confirmation is for.
pub fn confirm_email_link_query(token: &str, recipient_type: &ConfirmEmailRecipientType) -> (r:
    String)
    ensures
        match recipient_type {
            ConfirmEmailRecipientType::User => r@ == "token="@ + token@,
            ConfirmEmailRecipientType::Organization => r@ == "token="@ + token@
                + "&confirmingFor=organization"@,
        },
{
    let mut q = String::from_str("token=");
    q.append(token);
    match recipient_type {
        ConfirmEmailRecipientType::User => q,
        ConfirmEmailRecipientType::Organization => {
            q.append("&confirmingFor=organization");
            q
        },
    }
}

/// The title shown in the confirm-email message body.
pub fn confirm_email_title(recipient_type: &ConfirmEmailRecipientType) -> (r: String)
    ensures
        match recipient_type {
            ConfirmEmailRecipientType::User => r@ == "Thanks for registering a Rastercar account"@,
            ConfirmEmailRecipientType::Organization => r@
                == "Thanks for creating your rastercar organization"@,
        },
{
    match recipient_type {
        ConfirmEmailRecipientType::User => String::from_str(
            "Thanks for registering a Rastercar account",
        ),
        ConfirmEmailRecipientType::Organization => String::from_str(
            "Thanks for creating your rastercar organization",
        ),
    }
}

/// Subject line of the recover-password email.
pub fn recover_password_subject() -> (r: String)
    ensures
        r@ == "Rastercar: recover password"@,
{
    String::from_str("Rastercar: recover password")
}

/// Subject line of the confirm-email email.
pub fn confirm_email_subject() -> (r: String)
    ensures
        r@ == "Rastercar: confirm email"@,
{
    String::from_str("Rastercar: confirm email")
}

} // verus!
