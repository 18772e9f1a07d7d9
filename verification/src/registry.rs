use vstd::prelude::*;

verus! {

/// One entry of the tag-name registry: a tag identifier paired with the
/// published descriptive name of that tag.
pub struct TagDefinition {
    pub id: &'static [u8],
    pub name: &'static str,
}

impl TagDefinition {
    pub fn new(id: &'static [u8], name: &'static str) -> (d: TagDefinition)
        ensures
            d.id@ == id@,
            d.name@ == name@,
    {
        TagDefinition { id, name }
    }
}

/// The registry entry for `id`: the published name of the tag, or `None`
/// when the identifier is absent from the registry.
pub open spec fn spec_registry_name(id: Seq<u8>) -> Option<Seq<char>> {
    if id.len() == 1 {
        spec_name_single(id[0])
    } else if id.len() == 2 && id[0] == 0x5F {
        spec_name_5f(id[1])
    } else if id.len() == 2 && id[0] == 0x9F {
        spec_name_9f(id[1])
    } else if id.len() == 2 && id[0] == 0xBF {
        spec_name_bf(id[1])
    } else {
        None
    }
}

/// The name a decoded tag carries: the registry entry for `id`, or the
/// sentinel "unknown" when the identifier is absent from the registry.
pub open spec fn spec_tag_name(id: Seq<u8>) -> Seq<char> {
    spec_name_or_unknown(spec_registry_name(id))
}

pub open spec fn spec_name_or_unknown(entry: Option<Seq<char>>) -> Seq<char> {
    match entry {
        Some(n) => n,
        None => "unknown"@,
    }
}

/// Looks a tag identifier up in the registry; identifiers without an entry
/// resolve to the sentinel "unknown", which is not an error.
pub fn get_name_by_id(id: Vec<u8>) -> (r: &'static str)
    ensures
        r@ == spec_tag_name(id@),
{
    if id.len() == 1 {
        name_single(id[0])
    } else if id.len() == 2 && id[0] == 0x5F {
        name_5f(id[1])
    } else if id.len() == 2 && id[0] == 0x9F {
        name_9f(id[1])
    } else if id.len() == 2 && id[0] == 0xBF {
        name_bf(id[1])
    } else {
        "unknown"
    }
}

pub open spec fn spec_name_single(b: u8) -> Option<Seq<char>> {
    if b == 0x81 {
        Some("Amount, Authorised (Binary)"@)
    } else if b == 0x94 {
        Some("Application File Locator (AFL)"@)
    } else if b == 0x4F {
        Some("Application Identifier (AID) - card"@)
    } else if b == 0x82 {
        Some("Application Interchange Profile"@)
    } else if b == 0x50 {
        Some("Application Label"@)
    } else if b == 0x5A {
        Some("Application Primary Account Number (PAN)"@)
    } else if b == 0x87 {
        Some("Application Priority Indicator"@)
    } else if b == 0x61 {
        Some("Application Template"@)
    } else if b == 0x89 {
        Some("Authorisation Code"@)
    } else if b == 0x8A {
        Some("Authorisation Response Code"@)
    } else if b == 0x8C {
        Some("Card Risk Management Data Object List 1 (CDOL1)"@)
    } else if b == 0x8D {
        Some("Card Risk Management Data Object List 2 (CDOL2)"@)
    } else if b == 0x8E {
        Some("Cardholder Verification Method (CVM) List"@)
    } else if b == 0x8F {
        Some("Certification Authority Public Key Index"@)
    } else if b == 0x83 {
        Some("Command Template"@)
    } else if b == 0x84 {
        Some("Dedicated File (DF) Name"@)
    } else if b == 0x9D {
        Some("Directory Definition File (DDF) Name"@)
    } else if b == 0x73 {
        Some("Directory Discretionary Template"@)
    } else if b == 0x70 {
        Some("EMV Proprietary Template"@)
    } else if b == 0xA5 {
        Some("File Control Information (FCI) Proprietary Template"@)
    } else if b == 0x6F {
        Some("File Control Information (FCI) Template"@)
    } else if b == 0x91 {
        Some("Issuer Authentication Data"@)
    } else if b == 0x42 {
        Some("Issuer Identification Number (IIN)"@)
    } else if b == 0x90 {
        Some("Issuer Public Key Certificate"@)
    } else if b == 0x92 {
        Some("Issuer Public Key Remainder"@)
    } else if b == 0x86 {
        Some("Issuer Script Command"@)
    } else if b == 0x71 {
        Some("Issuer Script Template 1"@)
    } else if b == 0x72 {
        Some("Issuer Script Template 2"@)
    } else if b == 0x80 {
        Some("Response Message Template Format 1"@)
    } else if b == 0x77 {
        Some("Response Message Template Format 2"@)
    } else if b == 0x88 {
        Some("Short File Identifier (SFI)"@)
    } else if b == 0x93 {
        Some("Signed Static Application Data"@)
    } else if b == 0x95 {
        Some("Terminal Verification Results"@)
    } else if b == 0x57 {
        Some("Track 2 Equivalent Data"@)
    } else if b == 0x98 {
        Some("Transaction Certificate (TC) Hash Value"@)
    } else if b == 0x97 {
        Some("Transaction Certificate Data Object List (TDOL)"@)
    } else if b == 0x9A {
        Some("Transaction Date"@)
    } else if b == 0x99 {
        Some("Transaction Personal Identification Number (PIN) Data"@)
    } else if b == 0x9B {
        Some("Transaction Status Information"@)
    } else if b == 0x9C {
        Some("Transaction Type"@)
    } else {
        None
    }
}

pub open spec fn spec_name_5f(b: u8) -> Option<Seq<char>> {
    if b == 0x25 {
        Some("Application Effective Date"@)
    } else if b == 0x24 {
        Some("Application Expiration Date"@)
    } else if b == 0x34 {
        Some("Application Primary Account Number (PAN) Sequence Number"@)
    } else if b == 0x54 {
        Some("Bank Identifier Code (BIC)"@)
    } else if b == 0x20 {
        Some("Cardholder Name"@)
    } else if b == 0x53 {
        Some("International Bank Account Number (IBAN)"@)
    } else if b == 0x28 {
        Some("Issuer Country Code"@)
    } else if b == 0x55 {
        Some("Issuer Country Code (alpha2 format)"@)
    } else if b == 0x56 {
        Some("Issuer Country Code (alpha3 format)"@)
    } else if b == 0x50 {
        Some("Issuer URL"@)
    } else if b == 0x2D {
        Some("Language Preference"@)
    } else if b == 0x30 {
        Some("Service Code"@)
    } else if b == 0x2A {
        Some("Transaction Currency Code"@)
    } else if b == 0x36 {
        Some("Transaction Currency Exponent"@)
    } else {
        None
    }
}

pub open spec fn spec_name_9f(b: u8) -> Option<Seq<char>> {
    if b == 0x01 {
        Some("Acquirer Identifier"@)
    } else if b == 0x40 {
        Some("Additional Terminal Capabilities"@)
    } else if b == 0x02 {
        Some("Amount, Authorised (Numeric)"@)
    } else if b == 0x04 {
        Some("Amount, Other (Binary)"@)
    } else if b == 0x03 {
        Some("Amount, Other (Numeric)"@)
    } else if b == 0x3A {
        Some("Amount, Reference Currency"@)
    } else if b == 0x26 {
        Some("Application Cryptogram"@)
    } else if b == 0x42 {
        Some("Application Currency Code"@)
    } else if b == 0x44 {
        Some("Application Currency Exponent"@)
    } else if b == 0x05 {
        Some("Application Discretionary Data"@)
    } else if b == 0x06 {
        Some("Application Identifier (AID) - terminal"@)
    } else if b == 0x12 {
        Some("Application Preferred Name"@)
    } else if b == 0x3B {
        Some("Application Reference Currency"@)
    } else if b == 0x43 {
        Some("Application Reference Currency Exponent"@)
    } else if b == 0x36 {
        Some("Application Transaction Counter (ATC)"@)
    } else if b == 0x07 {
        Some("Application Usage Control"@)
    } else if b == 0x08 {
        Some("Application Version Number"@)
    } else if b == 0x09 {
        Some("Application Version Number"@)
    } else if b == 0x0B {
        Some("Cardholder Name Extended"@)
    } else if b == 0x34 {
        Some("Cardholder Verification Method (CVM) Results"@)
    } else if b == 0x22 {
        Some("Certification Authority Public Key Index"@)
    } else if b == 0x27 {
        Some("Cryptogram Information Data"@)
    } else if b == 0x45 {
        Some("Data Authentication Code"@)
    } else if b == 0x49 {
        Some("Dynamic Data Authentication Data Object List (DDOL)"@)
    } else if b == 0x4C {
        Some("ICC Dynamic Number"@)
    } else if b == 0x2D {
        Some("Integrated Circuit Card (ICC) PIN Encipherment Public Key Certificate"@)
    } else if b == 0x2E {
        Some("Integrated Circuit Card (ICC) PIN Encipherment Public Key Exponent"@)
    } else if b == 0x2F {
        Some("Integrated Circuit Card (ICC) PIN Encipherment Public Key Remainder"@)
    } else if b == 0x46 {
        Some("Integrated Circuit Card (ICC) Public Key Certificate"@)
    } else if b == 0x47 {
        Some("Integrated Circuit Card (ICC) Public Key Exponent"@)
    } else if b == 0x48 {
        Some("Integrated Circuit Card (ICC) Public Key Remainder"@)
    } else if b == 0x1E {
        Some("Interface Device (IFD) Serial Number"@)
    } else if b == 0x0D {
        Some("Issuer Action Code - Default"@)
    } else if b == 0x0E {
        Some("Issuer Action Code - Denial"@)
    } else if b == 0x0F {
        Some("Issuer Action Code - Online"@)
    } else if b == 0x10 {
        Some("Issuer Application Data"@)
    } else if b == 0x11 {
        Some("Issuer Code Table Index"@)
    } else if b == 0x32 {
        Some("Issuer Public Key Exponent"@)
    } else if b == 0x18 {
        Some("Issuer Script Identifier"@)
    } else if b == 0x13 {
        Some("Last Online Application Transaction Counter (ATC) Register"@)
    } else if b == 0x4D {
        Some("Log Entry"@)
    } else if b == 0x4F {
        Some("Log Format"@)
    } else if b == 0x14 {
        Some("Lower Consecutive Offline Limit"@)
    } else if b == 0x15 {
        Some("Merchant Category Code"@)
    } else if b == 0x16 {
        Some("Merchant Identifier"@)
    } else if b == 0x4E {
        Some("Merchant Name and Location"@)
    } else if b == 0x17 {
        Some("Personal Identification Number (PIN) Try Counter"@)
    } else if b == 0x39 {
        Some("Point-of-Service (POS) Entry Mode"@)
    } else if b == 0x38 {
        Some("Processing Options Data Object List (PDOL)"@)
    } else if b == 0x4B {
        Some("Signed Dynamic Application Data"@)
    } else if b == 0x4A {
        Some("Static Data Authentication Tag List"@)
    } else if b == 0x33 {
        Some("Terminal Capabilities"@)
    } else if b == 0x1A {
        Some("Terminal Country Code"@)
    } else if b == 0x1B {
        Some("Terminal Floor Limit"@)
    } else if b == 0x1C {
        Some("Terminal Identification"@)
    } else if b == 0x1D {
        Some("Terminal Risk Management Data"@)
    } else if b == 0x35 {
        Some("Terminal Type"@)
    } else if b == 0x1F {
        Some("Track 1 Discretionary Data"@)
    } else if b == 0x20 {
        Some("Track 2 Discretionary Data"@)
    } else if b == 0x3C {
        Some("Transaction Reference Currency Code"@)
    } else if b == 0x3D {
        Some("Transaction Reference Currency Exponent"@)
    } else if b == 0x41 {
        Some("Transaction Sequence Counter"@)
    } else if b == 0x21 {
        Some("Transaction Time"@)
    } else if b == 0x37 {
        Some("Unpredictable Number"@)
    } else if b == 0x23 {
        Some("Upper Consecutive Offline Limit"@)
    } else {
        None
    }
}

pub open spec fn spec_name_bf(b: u8) -> Option<Seq<char>> {
    if b == 0x0C {
        Some("File Control Information (FCI) Issuer Discretionary Data"@)
    } else {
        None
    }
}

fn name_single(b: u8) -> (r: &'static str)
    ensures
        r@ == spec_name_or_unknown(spec_name_single(b)),
{
    if b == 0x81 {
        "Amount, Authorised (Binary)"
    } else if b == 0x94 {
        "Application File Locator (AFL)"
    } else if b == 0x4F {
        "Application Identifier (AID) - card"
    } else if b == 0x82 {
        "Application Interchange Profile"
    } else if b == 0x50 {
        "Application Label"
    } else if b == 0x5A {
        "Application Primary Account Number (PAN)"
    } else if b == 0x87 {
        "Application Priority Indicator"
    } else if b == 0x61 {
        "Application Template"
    } else if b == 0x89 {
        "Authorisation Code"
    } else if b == 0x8A {
        "Authorisation Response Code"
    } else if b == 0x8C {
        "Card Risk Management Data Object List 1 (CDOL1)"
    } else if b == 0x8D {
        "Card Risk Management Data Object List 2 (CDOL2)"
    } else if b == 0x8E {
        "Cardholder Verification Method (CVM) List"
    } else if b == 0x8F {
        "Certification Authority Public Key Index"
    } else if b == 0x83 {
        "Command Template"
    } else if b == 0x84 {
        "Dedicated File (DF) Name"
    } else if b == 0x9D {
        "Directory Definition File (DDF) Name"
    } else if b == 0x73 {
        "Directory Discretionary Template"
    } else if b == 0x70 {
        "EMV Proprietary Template"
    } else if b == 0xA5 {
        "File Control Information (FCI) Proprietary Template"
    } else if b == 0x6F {
        "File Control Information (FCI) Template"
    } else if b == 0x91 {
        "Issuer Authentication Data"
    } else if b == 0x42 {
        "Issuer Identification Number (IIN)"
    } else if b == 0x90 {
        "Issuer Public Key Certificate"
    } else if b == 0x92 {
        "Issuer Public Key Remainder"
    } else if b == 0x86 {
        "Issuer Script Command"
    } else if b == 0x71 {
        "Issuer Script Template 1"
    } else if b == 0x72 {
        "Issuer Script Template 2"
    } else if b == 0x80 {
        "Response Message Template Format 1"
    } else if b == 0x77 {
        "Response Message Template Format 2"
    } else if b == 0x88 {
        "Short File Identifier (SFI)"
    } else if b == 0x93 {
        "Signed Static Application Data"
    } else if b == 0x95 {
        "Terminal Verification Results"
    } else if b == 0x57 {
        "Track 2 Equivalent Data"
    } else if b == 0x98 {
        "Transaction Certificate (TC) Hash Value"
    } else if b == 0x97 {
        "Transaction Certificate Data Object List (TDOL)"
    } else if b == 0x9A {
        "Transaction Date"
    } else if b == 0x99 {
        "Transaction Personal Identification Number (PIN) Data"
    } else if b == 0x9B {
        "Transaction Status Information"
    } else if b == 0x9C {
        "Transaction Type"
    } else {
        "unknown"
    }
}

fn name_5f(b: u8) -> (r: &'static str)
    ensures
        r@ == spec_name_or_unknown(spec_name_5f(b)),
{
    if b == 0x25 {
        "Application Effective Date"
    } else if b == 0x24 {
        "Application Expiration Date"
    } else if b == 0x34 {
        "Application Primary Account Number (PAN) Sequence Number"
    } else if b == 0x54 {
        "Bank Identifier Code (BIC)"
    } else if b == 0x20 {
        "Cardholder Name"
    } else if b == 0x53 {
        "International Bank Account Number (IBAN)"
    } else if b == 0x28 {
        "Issuer Country Code"
    } else if b == 0x55 {
        "Issuer Country Code (alpha2 format)"
    } else if b == 0x56 {
        "Issuer Country Code (alpha3 format)"
    } else if b == 0x50 {
        "Issuer URL"
    } else if b == 0x2D {
        "Language Preference"
    } else if b == 0x30 {
        "Service Code"
    } else if b == 0x2A {
        "Transaction Currency Code"
    } else if b == 0x36 {
        "Transaction Currency Exponent"
    } else {
        "unknown"
    }
}

fn name_9f(b: u8) -> (r: &'static str)
    ensures
        r@ == spec_name_or_unknown(spec_name_9f(b)),
{
    if b == 0x01 {
        "Acquirer Identifier"
    } else if b == 0x40 {
        "Additional Terminal Capabilities"
    } else if b == 0x02 {
        "Amount, Authorised (Numeric)"
    } else if b == 0x04 {
        "Amount, Other (Binary)"
    } else if b == 0x03 {
        "Amount, Other (Numeric)"
    } else if b == 0x3A {
        "Amount, Reference Currency"
    } else if b == 0x26 {
        "Application Cryptogram"
    } else if b == 0x42 {
        "Application Currency Code"
    } else if b == 0x44 {
        "Application Currency Exponent"
    } else if b == 0x05 {
        "Application Discretionary Data"
    } else if b == 0x06 {
        "Application Identifier (AID) - terminal"
    } else if b == 0x12 {
        "Application Preferred Name"
    } else if b == 0x3B {
        "Application Reference Currency"
    } else if b == 0x43 {
        "Application Reference Currency Exponent"
    } else if b == 0x36 {
        "Application Transaction Counter (ATC)"
    } else if b == 0x07 {
        "Application Usage Control"
    } else if b == 0x08 {
        "Application Version Number"
    } else if b == 0x09 {
        "Application Version Number"
    } else if b == 0x0B {
        "Cardholder Name Extended"
    } else if b == 0x34 {
        "Cardholder Verification Method (CVM) Results"
    } else if b == 0x22 {
        "Certification Authority Public Key Index"
    } else if b == 0x27 {
        "Cryptogram Information Data"
    } else if b == 0x45 {
        "Data Authentication Code"
    } else if b == 0x49 {
        "Dynamic Data Authentication Data Object List (DDOL)"
    } else if b == 0x4C {
        "ICC Dynamic Number"
    } else if b == 0x2D {
        "Integrated Circuit Card (ICC) PIN Encipherment Public Key Certificate"
    } else if b == 0x2E {
        "Integrated Circuit Card (ICC) PIN Encipherment Public Key Exponent"
    } else if b == 0x2F {
        "Integrated Circuit Card (ICC) PIN Encipherment Public Key Remainder"
    } else if b == 0x46 {
        "Integrated Circuit Card (ICC) Public Key Certificate"
    } else if b == 0x47 {
        "Integrated Circuit Card (ICC) Public Key Exponent"
    } else if b == 0x48 {
        "Integrated Circuit Card (ICC) Public Key Remainder"
    } else if b == 0x1E {
        "Interface Device (IFD) Serial Number"
    } else if b == 0x0D {
        "Issuer Action Code - Default"
    } else if b == 0x0E {
        "Issuer Action Code - Denial"
    } else if b == 0x0F {
        "Issuer Action Code - Online"
    } else if b == 0x10 {
        "Issuer Application Data"
    } else if b == 0x11 {
        "Issuer Code Table Index"
    } else if b == 0x32 {
        "Issuer Public Key Exponent"
    } else if b == 0x18 {
        "Issuer Script Identifier"
    } else if b == 0x13 {
        "Last Online Application Transaction Counter (ATC) Register"
    } else if b == 0x4D {
        "Log Entry"
    } else if b == 0x4F {
        "Log Format"
    } else if b == 0x14 {
        "Lower Consecutive Offline Limit"
    } else if b == 0x15 {
        "Merchant Category Code"
    } else if b == 0x16 {
        "Merchant Identifier"
    } else if b == 0x4E {
        "Merchant Name and Location"
    } else if b == 0x17 {
        "Personal Identification Number (PIN) Try Counter"
    } else if b == 0x39 {
        "Point-of-Service (POS) Entry Mode"
    } else if b == 0x38 {
        "Processing Options Data Object List (PDOL)"
    } else if b == 0x4B {
        "Signed Dynamic Application Data"
    } else if b == 0x4A {
        "Static Data Authentication Tag List"
    } else if b == 0x33 {
        "Terminal Capabilities"
    } else if b == 0x1A {
        "Terminal Country Code"
    } else if b == 0x1B {
        "Terminal Floor Limit"
    } else if b == 0x1C {
        "Terminal Identification"
    } else if b == 0x1D {
        "Terminal Risk Management Data"
    } else if b == 0x35 {
        "Terminal Type"
    } else if b == 0x1F {
        "Track 1 Discretionary Data"
    } else if b == 0x20 {
        "Track 2 Discretionary Data"
    } else if b == 0x3C {
        "Transaction Reference Currency Code"
    } else if b == 0x3D {
        "Transaction Reference Currency Exponent"
    } else if b == 0x41 {
        "Transaction Sequence Counter"
    } else if b == 0x21 {
        "Transaction Time"
    } else if b == 0x37 {
        "Unpredictable Number"
    } else if b == 0x23 {
        "Upper Consecutive Offline Limit"
    } else {
        "unknown"
    }
}

fn name_bf(b: u8) -> (r: &'static str)
    ensures
        r@ == spec_name_or_unknown(spec_name_bf(b)),
{
    if b == 0x0C {
        "File Control Information (FCI) Issuer Discretionary Data"
    } else {
        "unknown"
    }
}

} // verus!
