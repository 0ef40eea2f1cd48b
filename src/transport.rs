//! Values exchanged with the SMS and one-time-password providers.

use vstd::prelude::*;

verus! {

/// A failure reported while sending through the Surge SMS API.
#[derive(Debug)]
pub struct SurgeError {
    pub message: String,
}

/// The JSON body of a Surge send request.
#[derive(Debug)]
pub struct MessageRequest1 {
    /// The recipient's phone number in E.164 format.
    pub to: String,
    pub body: String,
}

/// A failure reported while sending through the Twilio API.
#[derive(Debug)]
pub struct TwilioError {
    pub message: String,
}

/// Twilio's answer to a send request.
#[derive(Debug)]
pub struct TwilioSendSMSData {
    pub sid: String,
    pub status: String,
    pub to: String,
    pub from: String,
    pub body: String,
    pub error_code: Option<String>,
    pub error_message: Option<String>,
}

/// A failure reported by the MessageCentral one-time-password API.
#[derive(Debug)]
pub struct MessageCentralError {
    pub message: String,
}

/// MessageCentral's answer to a one-time-password request.
#[derive(Debug)]
pub struct MessageCentralSendOTPData {
    pub verification_id: String,
    pub mobile_number: String,
    pub response_code: String,
    pub error_message: Option<String>,
    /// Validity of the code in seconds, as the API writes it (`"60.0"`).
    pub timeout: String,
    pub transaction_id: String,
}

fn prefixed(prefix: &str, text: &String) -> (r: String)
    ensures
        r@ == prefix@ + text@,
{
    let mut s = String::from_str(prefix);
    s.append(text.as_str());
    s
}

impl SurgeError {
    /// `Surge Error: <message>`.
    pub fn describe(&self) -> (r: String)
        ensures
            r@ == "Surge Error: "@ + self.message@,
    {
        prefixed("Surge Error: ", &self.message)
    }
}

impl TwilioError {
    /// `Twilio Error: <message>`.
    pub fn describe(&self) -> (r: String)
        ensures
            r@ == "Twilio Error: "@ + self.message@,
    {
        prefixed("Twilio Error: ", &self.message)
    }
}

impl MessageCentralError {
    /// `MessageCentral Error: <message>`.
    pub fn describe(&self) -> (r: String)
        ensures
            r@ == "MessageCentral Error: "@ + self.message@,
    {
        prefixed("MessageCentral Error: ", &self.message)
    }
}

/// A ten-digit North American number in E.164 form: `+1` and the digits.
pub fn us_e164(phone_number: &str) -> (r: String)
    ensures
        r@ == "+1"@ + phone_number@,
{
    let mut s = String::from_str("+1");
    s.append(phone_number);
    s
}

/// The Surge request for sending `body` to `to`. The recipient must be
/// present and in E.164 form (starting with `+`).
pub fn build_sms_request(to: String, body: String) -> (r: Result<MessageRequest1, SurgeError>)
    ensures
        to@.len() == 0 ==> (r matches Err(e) && e.message@ == "Phone number 'to' is required"@),
        to@.len() > 0 && to@[0] != '+' ==> (r matches Err(e) && e.message@
            == "Phone number 'to' must be in E.164 format (starting with +)"@),
        to@.len() > 0 && to@[0] == '+' ==> (r matches Ok(req) && req.to@ == to@ && req.body@
            == body@),
{
    if to.as_str().unicode_len() == 0 {
        return Err(SurgeError { message: String::from_str("Phone number 'to' is required") });
    }
    if to.as_str().get_char(0) != '+' {
        return Err(
            SurgeError {
                message: String::from_str(
                    "Phone number 'to' must be in E.164 format (starting with +)",
                ),
            },
        );
    }
    Ok(MessageRequest1 { to, body })
}

} // verus!
