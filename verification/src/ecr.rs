//! Logging in to AWS ECR: the region of a registry, and the password that an
//! authorization token holds.

use aws_sdk_ecr::config::http::HttpResponse as EcrHttpResponse;
use aws_sdk_ecr::error::SdkError as EcrSdkError;
use aws_sdk_ecr::operation::get_authorization_token::GetAuthorizationTokenError as EcrGetAuthorizationTokenError;
use aws_sdk_ecrpublic::config::http::HttpResponse as EcrPublicHttpResponse;
use aws_sdk_ecrpublic::error::SdkError as EcrPublicSdkError;
use aws_sdk_ecrpublic::operation::get_authorization_token::GetAuthorizationTokenError as EcrPublicGetAuthorizationTokenError;
use base64::Engine;
use vstd::prelude::*;
use vstd::utf8::{decode_utf8, encode_utf8, valid_utf8};
use crate::image::optional_text;
use crate::text::{contains_text, field, field_start, find, nth_field};
use crate::text::{lemma_find, lemma_find_after_part, lemma_find_is};

verus! {

/// What came of a request to AWS that failed, with the raw response to it.
#[verifier::external_type_specification]
#[verifier::external_body]
#[verifier::reject_recursive_types(E)]
#[verifier::reject_recursive_types(R)]
pub struct ExSdkError<E, R>(aws_smithy_runtime_api::client::result::SdkError<E, R>);

/// A response of AWS.
#[verifier::external_type_specification]
#[verifier::external_body]
#[verifier::reject_recursive_types(B)]
pub struct ExResponse<B>(aws_smithy_runtime_api::http::Response<B>);

/// The body of a response of AWS.
#[verifier::external_type_specification]
#[verifier::external_body]
pub struct ExSdkBody(aws_smithy_types::body::SdkBody);

/// Why the private ECR service gave no token.
#[verifier::external_type_specification]
#[verifier::external_body]
pub struct ExGetAuthorizationTokenError(
    aws_sdk_ecr::operation::get_authorization_token::GetAuthorizationTokenError,
);

/// Why the public ECR service gave no token.
#[verifier::external_type_specification]
#[verifier::external_body]
pub struct ExPublicGetAuthorizationTokenError(
    aws_sdk_ecrpublic::operation::get_authorization_token::GetAuthorizationTokenError,
);

/// Why a text is no base64.
#[derive(Debug, Clone, Copy, PartialEq, Eq, Structural)]
pub enum DecodeError {
    /// At this place stands this byte, which does not belong there.
    InvalidByte(usize, u8),
    /// This many symbols do not make up whole bytes.
    InvalidLength(usize),
    /// At this place stands this last symbol, of which bits would be lost.
    InvalidLastSymbol(usize, u8),
    /// The padding is missing or misplaced.
    InvalidPadding,
}

/// Why there is no password for a private ECR registry.
#[derive(Debug)]
pub enum EcrPasswordError {
    /// The registry's address names no region.
    InvalidRegion,
    /// The token is no base64.
    Base64DecodeError(DecodeError),
    /// The password, given here, is no UTF-8.
    Utf8Error(Vec<u8>),
    /// AWS gave no token.
    AWSError(EcrSdkError<EcrGetAuthorizationTokenError, EcrHttpResponse>),
}

/// What an [`EcrPasswordError`] says.
pub enum EcrPasswordErrorView {
    InvalidRegion,
    Base64DecodeError(DecodeError),
    Utf8Error(Seq<u8>),
    AWSError(EcrSdkError<EcrGetAuthorizationTokenError, EcrHttpResponse>),
}

impl View for EcrPasswordError {
    type V = EcrPasswordErrorView;

    open spec fn view(&self) -> EcrPasswordErrorView {
        match *self {
            EcrPasswordError::InvalidRegion => EcrPasswordErrorView::InvalidRegion,
            EcrPasswordError::Base64DecodeError(e) => EcrPasswordErrorView::Base64DecodeError(e),
            EcrPasswordError::Utf8Error(bytes) => EcrPasswordErrorView::Utf8Error(bytes@),
            EcrPasswordError::AWSError(e) => EcrPasswordErrorView::AWSError(e),
        }
    }
}

/// Why there is no password for a public ECR registry.
#[derive(Debug)]
pub enum EcrPublicPasswordError {
    /// The token is no base64.
    Base64DecodeError(DecodeError),
    /// The password, given here, is no UTF-8.
    Utf8Error(Vec<u8>),
    /// AWS gave no token.
    AWSError(
        EcrPublicSdkError<EcrPublicGetAuthorizationTokenError, EcrPublicHttpResponse>,
    ),
}

/// What an [`EcrPublicPasswordError`] says.
pub enum EcrPublicPasswordErrorView {
    Base64DecodeError(DecodeError),
    Utf8Error(Seq<u8>),
    AWSError(
        EcrPublicSdkError<EcrPublicGetAuthorizationTokenError, EcrPublicHttpResponse>,
    ),
}

impl View for EcrPublicPasswordError {
    type V = EcrPublicPasswordErrorView;

    open spec fn view(&self) -> EcrPublicPasswordErrorView {
        match *self {
            EcrPublicPasswordError::Base64DecodeError(e) => {
                EcrPublicPasswordErrorView::Base64DecodeError(e)
            },
            EcrPublicPasswordError::Utf8Error(bytes) => EcrPublicPasswordErrorView::Utf8Error(
                bytes@,
            ),
            EcrPublicPasswordError::AWSError(e) => EcrPublicPasswordErrorView::AWSError(e),
        }
    }
}

/// What `Engine::decode` of the base64 crate's `STANDARD` engine gives for a
/// text: the bytes that the text encodes, or why it encodes none.
pub uninterp spec fn base64_decoded(text: Seq<char>) -> Result<Seq<u8>, DecodeError>;

/// Calls `Engine::decode` of the base64 crate's `STANDARD` engine. The result
/// depends on the text alone; an error is the crate's own, variant by variant.
#[verifier::external_body]
fn decode_base64(text: &str) -> (decoded: Result<Vec<u8>, DecodeError>)
    ensures
        match decoded {
            Ok(bytes) => base64_decoded(text@) == Ok::<Seq<u8>, DecodeError>(bytes@),
            Err(error) => base64_decoded(text@) == Err::<Seq<u8>, DecodeError>(error),
        },
{
    match base64::engine::general_purpose::STANDARD.decode(text) {
        Ok(bytes) => Ok(bytes),
        Err(base64::DecodeError::InvalidByte(at, byte)) => Err(DecodeError::InvalidByte(at, byte)),
        Err(base64::DecodeError::InvalidLength(len)) => Err(DecodeError::InvalidLength(len)),
        Err(base64::DecodeError::InvalidLastSymbol(at, byte)) => Err(
            DecodeError::InvalidLastSymbol(at, byte),
        ),
        Err(base64::DecodeError::InvalidPadding) => Err(DecodeError::InvalidPadding),
    }
}

/// Calls `String::from_utf8`: the text that the bytes encode in UTF-8, or the
/// bytes themselves where they are no UTF-8.
#[verifier::external_body]
fn string_from_utf8(bytes: Vec<u8>) -> (text: Result<String, Vec<u8>>)
    ensures
        match text {
            Ok(text) => valid_utf8(bytes@) && text@ == decode_utf8(bytes@),
            Err(rest) => !valid_utf8(bytes@) && rest@ == bytes@,
        },
{
    match String::from_utf8(bytes) {
        Ok(text) => Ok(text),
        Err(error) => Err(error.into_bytes()),
    }
}

/// How many bytes the user name and the colon take that stand before the
/// password: the user is always `AWS`.
pub const USER_PREFIX_LEN: usize = 4;

/// The region that a registry's address names.
pub open spec fn region_of(ecr_host: Seq<char>) -> Option<Seq<char>> {
    field(ecr_host, '.', 3)
}

/// The password in decoded credentials, or its bytes where they are no UTF-8.
pub open spec fn password_in(credentials: Seq<u8>) -> Result<Seq<char>, Seq<u8>> {
    let password = credentials.skip(USER_PREFIX_LEN as int);
    if valid_utf8(password) {
        Ok(decode_utf8(password))
    } else {
        Err(password)
    }
}

/// Whether a token, if it is base64, decodes to enough bytes to hold the user.
pub open spec fn holds_user(token: Seq<char>) -> bool {
    base64_decoded(token) matches Ok(credentials) ==> credentials.len() >= USER_PREFIX_LEN
}

/// The region that the address of a private ECR registry names: the fourth of
/// the parts that dots divide it into.
pub fn ecr_region(ecr_host: &str) -> (region: Result<String, EcrPasswordError>)
    ensures
        match region {
            Ok(region) => region_of(ecr_host@) == Some(region@),
            Err(error) => region_of(ecr_host@) is None && error@
                == EcrPasswordErrorView::InvalidRegion && error is InvalidRegion,
        },
{
    match nth_field(ecr_host, '.', 3) {
        Some(region) => Ok(region),
        None => Err(EcrPasswordError::InvalidRegion),
    }
}

/// The password in decoded credentials, which are `AWS:` and the password.
fn credentials_password(credentials: Vec<u8>) -> (password: Result<String, Vec<u8>>)
    requires
        credentials.len() >= USER_PREFIX_LEN,
    ensures
        match password {
            Ok(password) => password_in(credentials@) == Ok::<Seq<char>, Seq<u8>>(password@),
            Err(bytes) => password_in(credentials@) == Err::<Seq<char>, Seq<u8>>(bytes@),
        },
{
    let mut user = credentials;
    let password = user.split_off(USER_PREFIX_LEN);
    assert(password@ =~= credentials@.skip(USER_PREFIX_LEN as int));
    string_from_utf8(password)
}

/// What the decoding of a token says.
pub open spec fn decoding(decoded: Result<Vec<u8>, DecodeError>) -> Result<Seq<u8>, DecodeError> {
    match decoded {
        Ok(bytes) => Ok(bytes@),
        Err(error) => Err(error),
    }
}

/// What a text or an error says.
pub open spec fn text_or_error<E: View>(result: Result<String, E>) -> Result<Seq<char>, E::V> {
    match result {
        Ok(text) => Ok(text@),
        Err(error) => Err(error@),
    }
}

/// The password for a private ECR registry, given the decoding of the token.
pub open spec fn ecr_password_in(decoded: Result<Seq<u8>, DecodeError>) -> Result<
    Seq<char>,
    EcrPasswordErrorView,
> {
    match decoded {
        Ok(credentials) => match password_in(credentials) {
            Ok(password) => Ok(password),
            Err(bytes) => Err(EcrPasswordErrorView::Utf8Error(bytes)),
        },
        Err(error) => Err(EcrPasswordErrorView::Base64DecodeError(error)),
    }
}

/// The password for a public ECR registry, given the decoding of the token.
pub open spec fn ecr_public_password_in(decoded: Result<Seq<u8>, DecodeError>) -> Result<
    Seq<char>,
    EcrPublicPasswordErrorView,
> {
    match decoded {
        Ok(credentials) => match password_in(credentials) {
            Ok(password) => Ok(password),
            Err(bytes) => Err(EcrPublicPasswordErrorView::Utf8Error(bytes)),
        },
        Err(error) => Err(EcrPublicPasswordErrorView::Base64DecodeError(error)),
    }
}

/// The password for a private ECR registry, given the decoding of the token:
/// what follows `AWS:`.
pub fn decoded_ecr_password(decoded: Result<Vec<u8>, DecodeError>) -> (password: Result<
    String,
    EcrPasswordError,
>)
    requires
        decoded matches Ok(credentials) ==> credentials.len() >= USER_PREFIX_LEN,
    ensures
        text_or_error(password) == ecr_password_in(decoding(decoded)),
        match decoded {
            Ok(credentials) => if valid_utf8(credentials@.skip(4)) {
                password matches Ok(text) && text@ == decode_utf8(credentials@.skip(4))
            } else {
                password matches Err(EcrPasswordError::Utf8Error(bytes)) && bytes@
                    == credentials@.skip(4)
            },
            Err(error) => password == Err::<String, EcrPasswordError>(
                EcrPasswordError::Base64DecodeError(error),
            ),
        },
{
    match decoded {
        Ok(credentials) => match credentials_password(credentials) {
            Ok(password) => Ok(password),
            Err(bytes) => Err(EcrPasswordError::Utf8Error(bytes)),
        },
        Err(error) => Err(EcrPasswordError::Base64DecodeError(error)),
    }
}

/// The password for a public ECR registry, given the decoding of the token:
/// what follows `AWS:`.
pub fn decoded_ecr_public_password(decoded: Result<Vec<u8>, DecodeError>) -> (password: Result<
    String,
    EcrPublicPasswordError,
>)
    requires
        decoded matches Ok(credentials) ==> credentials.len() >= USER_PREFIX_LEN,
    ensures
        text_or_error(password) == ecr_public_password_in(decoding(decoded)),
        match decoded {
            Ok(credentials) => if valid_utf8(credentials@.skip(4)) {
                password matches Ok(text) && text@ == decode_utf8(credentials@.skip(4))
            } else {
                password matches Err(EcrPublicPasswordError::Utf8Error(bytes)) && bytes@
                    == credentials@.skip(4)
            },
            Err(error) => password == Err::<String, EcrPublicPasswordError>(
                EcrPublicPasswordError::Base64DecodeError(error),
            ),
        },
{
    match decoded {
        Ok(credentials) => match credentials_password(credentials) {
            Ok(password) => Ok(password),
            Err(bytes) => Err(EcrPublicPasswordError::Utf8Error(bytes)),
        },
        Err(error) => Err(EcrPublicPasswordError::Base64DecodeError(error)),
    }
}

/// The password that a token of the private ECR service holds. The token is
/// `AWS:` and the password, in base64.
pub fn ecr_password(token: &str) -> (password: Result<String, EcrPasswordError>)
    requires
        holds_user(token@),
    ensures
        text_or_error(password) == ecr_password_in(base64_decoded(token@)),
        match base64_decoded(token@) {
            Ok(credentials) => if valid_utf8(credentials.skip(4)) {
                password matches Ok(text) && text@ == decode_utf8(credentials.skip(4))
            } else {
                password matches Err(EcrPasswordError::Utf8Error(bytes)) && bytes@
                    == credentials.skip(4)
            },
            Err(error) => password == Err::<String, EcrPasswordError>(
                EcrPasswordError::Base64DecodeError(error),
            ),
        },
{
    decoded_ecr_password(decode_base64(token))
}

/// The password that a token of the public ECR service holds. The token is
/// `AWS:` and the password, in base64.
pub fn ecr_public_password(token: &str) -> (password: Result<String, EcrPublicPasswordError>)
    requires
        holds_user(token@),
    ensures
        text_or_error(password) == ecr_public_password_in(base64_decoded(token@)),
        match base64_decoded(token@) {
            Ok(credentials) => if valid_utf8(credentials.skip(4)) {
                password matches Ok(text) && text@ == decode_utf8(credentials.skip(4))
            } else {
                password matches Err(EcrPublicPasswordError::Utf8Error(bytes)) && bytes@
                    == credentials.skip(4)
            },
            Err(error) => password == Err::<String, EcrPublicPasswordError>(
                EcrPublicPasswordError::Base64DecodeError(error),
            ),
        },
{
    decoded_ecr_public_password(decode_base64(token))
}

/// Whether a token, if it is base64, decodes to enough bytes to hold the user.
pub fn token_holds_user(token: &str) -> (yes: bool)
    ensures
        yes == holds_user(token@),
        !yes <==> (base64_decoded(token@) matches Ok(credentials) && credentials.len() < 4),
{
    match decode_base64(token) {
        Ok(credentials) => credentials.len() >= USER_PREFIX_LEN,
        Err(_) => true,
    }
}

/// The password that a token of the private ECR service holds, if the token is
/// long enough to hold the user.
pub open spec fn ecr_password_of(token: Seq<char>) -> Option<
    Result<Seq<char>, EcrPasswordErrorView>,
> {
    if holds_user(token) {
        Some(ecr_password_in(base64_decoded(token)))
    } else {
        None
    }
}

/// The password that a token of the public ECR service holds, if the token is
/// long enough to hold the user.
pub open spec fn ecr_public_password_of(token: Seq<char>) -> Option<
    Result<Seq<char>, EcrPublicPasswordErrorView>,
> {
    if holds_user(token) {
        Some(ecr_public_password_in(base64_decoded(token)))
    } else {
        None
    }
}

/// What a text or an error says, if there is either.
pub open spec fn optional_text_or_error<E: View>(result: Option<Result<String, E>>) -> Option<
    Result<Seq<char>, E::V>,
> {
    match result {
        Some(result) => Some(text_or_error(result)),
        None => None,
    }
}

/// [`ecr_password`] for any token. `None` where the token is too short to hold
/// the user.
pub fn checked_ecr_password(token: &str) -> (password: Option<Result<String, EcrPasswordError>>)
    ensures
        optional_text_or_error(password) == ecr_password_of(token@),
        match base64_decoded(token@) {
            Ok(credentials) => if credentials.len() < 4 {
                password is None
            } else if valid_utf8(credentials.skip(4)) {
                password matches Some(Ok(text)) && text@ == decode_utf8(credentials.skip(4))
            } else {
                password matches Some(Err(EcrPasswordError::Utf8Error(bytes))) && bytes@
                    == credentials.skip(4)
            },
            Err(error) => password == Some(
                Err::<String, EcrPasswordError>(EcrPasswordError::Base64DecodeError(error)),
            ),
        },
{
    if token_holds_user(token) {
        Some(ecr_password(token))
    } else {
        None
    }
}

/// [`ecr_public_password`] for any token. `None` where the token is too short
/// to hold the user.
pub fn checked_ecr_public_password(token: &str) -> (password: Option<
    Result<String, EcrPublicPasswordError>,
>)
    ensures
        optional_text_or_error(password) == ecr_public_password_of(token@),
        match base64_decoded(token@) {
            Ok(credentials) => if credentials.len() < 4 {
                password is None
            } else if valid_utf8(credentials.skip(4)) {
                password matches Some(Ok(text)) && text@ == decode_utf8(credentials.skip(4))
            } else {
                password matches Some(Err(EcrPublicPasswordError::Utf8Error(bytes))) && bytes@
                    == credentials.skip(4)
            },
            Err(error) => password == Some(
                Err::<String, EcrPublicPasswordError>(
                    EcrPublicPasswordError::Base64DecodeError(error),
                ),
            ),
        },
{
    if token_holds_user(token) {
        Some(ecr_public_password(token))
    } else {
        None
    }
}

/// The region that the public ECR service is asked in where the environment
/// names none.
pub fn ecr_public_fallback_region() -> (region: &'static str)
    ensures
        region@ == "us-east-1"@,
{
    "us-east-1"
}

/// One entry of an answer of AWS to the request for a token.
#[derive(Debug)]
pub struct AuthorizationData {
    pub authorization_token: Option<String>,
}

/// The token in an answer of the private ECR service: that of the first entry.
pub open spec fn token_in(data: Option<Vec<AuthorizationData>>) -> Option<Seq<char>> {
    match data {
        Some(entries) => if entries@.len() > 0 {
            optional_text(entries@[0].authorization_token)
        } else {
            None
        },
        None => None,
    }
}

/// The token in an answer of the public ECR service, which has one entry.
pub open spec fn public_token_in(data: Option<AuthorizationData>) -> Option<Seq<char>> {
    match data {
        Some(entry) => optional_text(entry.authorization_token),
        None => None,
    }
}

/// The token in an answer of the private ECR service, if it holds one.
pub fn ecr_token(data: Option<Vec<AuthorizationData>>) -> (token: Option<String>)
    ensures
        optional_text(token) == token_in(data),
        match data {
            Some(entries) => if entries@.len() > 0 {
                token == entries@[0].authorization_token
            } else {
                token is None
            },
            None => token is None,
        },
{
    match data {
        Some(entries) => if entries.len() > 0 {
            let mut entries = entries;
            entries.remove(0).authorization_token
        } else {
            None
        },
        None => None,
    }
}

/// The token in an answer of the public ECR service, if it holds one.
pub fn ecr_public_token(data: Option<AuthorizationData>) -> (token: Option<String>)
    ensures
        optional_text(token) == public_token_in(data),
        data matches Some(entry) ==> token == entry.authorization_token,
        data is None ==> token is None,
{
    match data {
        Some(entry) => entry.authorization_token,
        None => None,
    }
}

/// What the answer of the private ECR service to the request for a token comes
/// to. `None` where the answer holds no token, or one too short to hold the user.
pub fn ecr_answer_password(
    answer: Result<
        Option<Vec<AuthorizationData>>,
        EcrSdkError<EcrGetAuthorizationTokenError, EcrHttpResponse>,
    >,
) -> (password: Option<Result<String, EcrPasswordError>>)
    ensures
        optional_text_or_error(password) == match answer {
            Err(error) => Some(
                Err::<Seq<char>, EcrPasswordErrorView>(EcrPasswordErrorView::AWSError(error)),
            ),
            Ok(data) => match token_in(data) {
                Some(token) => ecr_password_of(token),
                None => None,
            },
        },
        answer matches Err(error) ==> password == Some(
            Err::<String, EcrPasswordError>(EcrPasswordError::AWSError(error)),
        ),
        answer matches Ok(None) ==> password is None,
        answer matches Ok(Some(entries)) ==> {
            &&& entries@.len() == 0 || entries@[0].authorization_token is None ==> password is None
            &&& entries@.len() > 0 ==> (entries@[0].authorization_token matches Some(token) ==> match base64_decoded(
                token@,
            ) {
                Ok(credentials) => if credentials.len() < 4 {
                    password is None
                } else if valid_utf8(credentials.skip(4)) {
                    password matches Some(Ok(text)) && text@ == decode_utf8(credentials.skip(4))
                } else {
                    password matches Some(Err(EcrPasswordError::Utf8Error(bytes))) && bytes@
                        == credentials.skip(4)
                },
                Err(error) => password == Some(
                    Err::<String, EcrPasswordError>(EcrPasswordError::Base64DecodeError(error)),
                ),
            })
        },
{
    match answer {
        Err(error) => Some(Err(EcrPasswordError::AWSError(error))),
        Ok(data) => match ecr_token(data) {
            Some(token) => checked_ecr_password(token.as_str()),
            None => None,
        },
    }
}

/// What the answer of the public ECR service to the request for a token comes
/// to. `None` where the answer holds no token, or one too short to hold the user.
pub fn ecr_public_answer_password(
    answer: Result<
        Option<AuthorizationData>,
        EcrPublicSdkError<EcrPublicGetAuthorizationTokenError, EcrPublicHttpResponse>,
    >,
) -> (password: Option<Result<String, EcrPublicPasswordError>>)
    ensures
        optional_text_or_error(password) == match answer {
            Err(error) => Some(
                Err::<Seq<char>, EcrPublicPasswordErrorView>(
                    EcrPublicPasswordErrorView::AWSError(error),
                ),
            ),
            Ok(data) => match public_token_in(data) {
                Some(token) => ecr_public_password_of(token),
                None => None,
            },
        },
        answer matches Err(error) ==> password == Some(
            Err::<String, EcrPublicPasswordError>(EcrPublicPasswordError::AWSError(error)),
        ),
        answer matches Ok(None) ==> password is None,
        answer matches Ok(Some(entry)) ==> {
            &&& entry.authorization_token is None ==> password is None
            &&& entry.authorization_token matches Some(token) ==> match base64_decoded(token@) {
                Ok(credentials) => if credentials.len() < 4 {
                    password is None
                } else if valid_utf8(credentials.skip(4)) {
                    password matches Some(Ok(text)) && text@ == decode_utf8(credentials.skip(4))
                } else {
                    password matches Some(Err(EcrPublicPasswordError::Utf8Error(bytes))) && bytes@
                        == credentials.skip(4)
                },
                Err(error) => password == Some(
                    Err::<String, EcrPublicPasswordError>(
                        EcrPublicPasswordError::Base64DecodeError(error),
                    ),
                ),
            }
        },
{
    match answer {
        Err(error) => Some(Err(EcrPublicPasswordError::AWSError(error))),
        Ok(data) => match ecr_public_token(data) {
            Some(token) => checked_ecr_public_password(token.as_str()),
            None => None,
        },
    }
}

/// A token that holds `AWS:` and a password gives that password, whatever
/// characters it is made of.
pub proof fn law_token_gives_back_password(token: Seq<char>, password: Seq<char>)
    requires
        base64_decoded(token) == Ok::<Seq<u8>, DecodeError>(encode_utf8("AWS:"@ + password)),
    ensures
        holds_user(token),
        ecr_password_in(base64_decoded(token)) == Ok::<Seq<char>, EcrPasswordErrorView>(password),
        ecr_public_password_in(base64_decoded(token)) == Ok::<
            Seq<char>,
            EcrPublicPasswordErrorView,
        >(password),
{
    reveal_strlit("AWS:");
    let user = "AWS:"@;
    reveal_with_fuel(encode_utf8, 5);
    let all = user + password;
    assert(all.drop_first().drop_first().drop_first().drop_first() =~= password);
    assert(encode_utf8(all).skip(4) =~= encode_utf8(password));
    vstd::utf8::encode_utf8_valid_utf8(password);
    vstd::utf8::encode_utf8_decode_utf8(password);
}

/// Of decoded credentials, the first four bytes are the user and the colon, and all
/// the others are the password, or are given back where they are no UTF-8.
pub proof fn law_password_follows_four_bytes(user: Seq<u8>, password: Seq<u8>)
    requires
        user.len() == 4,
    ensures
        valid_utf8(password) ==> {
            &&& ecr_password_in(Ok(user + password)) == Ok::<Seq<char>, EcrPasswordErrorView>(
                decode_utf8(password),
            )
            &&& ecr_public_password_in(Ok(user + password)) == Ok::<
                Seq<char>,
                EcrPublicPasswordErrorView,
            >(decode_utf8(password))
        },
        !valid_utf8(password) ==> {
            &&& ecr_password_in(Ok(user + password)) == Err::<Seq<char>, EcrPasswordErrorView>(
                EcrPasswordErrorView::Utf8Error(password),
            )
            &&& ecr_public_password_in(Ok(user + password)) == Err::<
                Seq<char>,
                EcrPublicPasswordErrorView,
            >(EcrPublicPasswordErrorView::Utf8Error(password))
        },
{
    assert((user + password).skip(4) =~= password);
}

/// A token gives no password exactly when it decodes to fewer than four bytes, and
/// one that does not decode gives the error of the decoding.
pub proof fn law_token_is_decoded_or_given_up(token: Seq<char>)
    ensures
        ecr_password_of(token) is None <==> (base64_decoded(token) matches Ok(credentials)
            && credentials.len() < 4),
        ecr_public_password_of(token) is None <==> (base64_decoded(token) matches Ok(credentials)
            && credentials.len() < 4),
        base64_decoded(token) matches Err(error) ==> {
            &&& ecr_password_of(token) == Some(
                Err::<Seq<char>, EcrPasswordErrorView>(
                    EcrPasswordErrorView::Base64DecodeError(error),
                ),
            )
            &&& ecr_public_password_of(token) == Some(
                Err::<Seq<char>, EcrPublicPasswordErrorView>(
                    EcrPublicPasswordErrorView::Base64DecodeError(error),
                ),
            )
        },
{
}

/// An address names a region exactly when it holds three dots. The region is what
/// stands between the third dot and the next one, or the end.
pub proof fn law_region_stands_behind_the_third_dot(host: Seq<char>, a: int, b: int, c: int)
    requires
        0 <= a < b < c < host.len(),
        host[a] == '.' && host[b] == '.' && host[c] == '.',
        forall|i: int| 0 <= i < c && #[trigger] host[i] == '.' ==> i == a || i == b,
    ensures
        region_of(host) matches Some(region) && {
            let end = c + 1 + region.len();
            &&& end <= host.len()
            &&& region == host.subrange(c + 1, end)
            &&& !region.contains('.')
            &&& end < host.len() ==> host[end] == '.'
        },
{
    reveal_with_fuel(field_start, 4);
    lemma_find_is(host, '.', 0, a);
    lemma_find_is(host, '.', a + 1, b);
    lemma_find_is(host, '.', b + 1, c);
    lemma_find(host, '.', c + 1);
}

/// An address that names a region holds three dots before it.
pub proof fn law_named_region_has_three_dots(host: Seq<char>) -> (dots: (int, int, int))
    requires
        region_of(host) is Some,
    ensures
        0 <= dots.0 < dots.1 < dots.2 < host.len(),
        host[dots.0] == '.' && host[dots.1] == '.' && host[dots.2] == '.',
{
    reveal_with_fuel(field_start, 4);
    let a = find(host, '.', 0);
    lemma_find(host, '.', 0);
    if a < host.len() {
        lemma_find(host, '.', a + 1);
        let b = find(host, '.', a + 1);
        if b < host.len() {
            lemma_find(host, '.', b + 1);
        }
    }
    (a, find(host, '.', a + 1), find(host, '.', find(host, '.', a + 1) + 1))
}

/// The address `<account>.dkr.ecr.<region>.<domain>` names `<region>`, and so
/// does any other whose fourth part it is.
pub proof fn law_region_is_fourth_part(
    first: Seq<char>,
    second: Seq<char>,
    third: Seq<char>,
    region: Seq<char>,
    domain: Seq<char>,
)
    requires
        !first.contains('.'),
        !second.contains('.'),
        !third.contains('.'),
        !region.contains('.'),
    ensures
        region_of(
            first + seq!['.'] + second + seq!['.'] + third + seq!['.'] + region + seq!['.']
                + domain,
        ) == Some(region),
        region_of(first + seq!['.'] + second + seq!['.'] + third + seq!['.'] + region) == Some(
            region,
        ),
        region_of(first + seq!['.'] + second + seq!['.'] + third) is None,
{
    let dot = seq!['.'];
    let front = first + dot + second + dot + third;
    let short = front + dot + region;
    let long = short + dot + domain;
    lemma_fourth_part(long, first, second, third, region);
    lemma_fourth_part(short, first, second, third, region);
    lemma_parts(front, first, second, third);
    reveal_with_fuel(field_start, 4);
}

/// The address of a private ECR registry, by which it is told apart, names a
/// region: three dots stand in `.dkr.ecr.`, so there is a fourth part.
pub proof fn law_private_registry_names_its_region(host: Seq<char>)
    requires
        contains_text(host, ".dkr.ecr."@),
    ensures
        region_of(host) is Some,
{
    reveal_strlit(".dkr.ecr.");
    let mark = ".dkr.ecr."@;
    let i = choose|i: int|
        0 <= i <= host.len() - mark.len() && #[trigger] host.subrange(i, i + mark.len()) == mark;
    assert(host[i] == host.subrange(i, i + 9)[0]);
    assert(host[i + 4] == host.subrange(i, i + 9)[4]);
    assert(host[i + 8] == host.subrange(i, i + 9)[8]);
    reveal_with_fuel(field_start, 4);
    lemma_find(host, '.', 0);
    lemma_find(host, '.', field_start(host, '.', 1));
    lemma_find(host, '.', field_start(host, '.', 2));
}

/// Where the parts of an address end of which the first three are given.
proof fn lemma_parts(host: Seq<char>, first: Seq<char>, second: Seq<char>, third: Seq<char>)
    requires
        !first.contains('.'),
        !second.contains('.'),
        !third.contains('.'),
        ({
            let front = first + seq!['.'] + second + seq!['.'] + third;
            front == host || (front + seq!['.']).is_prefix_of(host)
        }),
    ensures
        field_start(host, '.', 3) == first.len() + second.len() + third.len() + 3,
{
    let front = first + seq!['.'] + second + seq!['.'] + third;
    let n = front.len() as int;
    if front != host {
        assert forall|i: int| 0 <= i <= n implies host[i] == (front + seq!['.'])[i] by {
            assert(host.subrange(0, n + 1)[i] == host[i]);
        }
    }
    let a = first.len() as int;
    let b = a + 1 + second.len();
    assert(host.subrange(0, a) =~= first);
    lemma_find_after_part(host, '.', 0, first);
    assert(host.subrange(a + 1, b) =~= second);
    lemma_find_after_part(host, '.', a + 1, second);
    assert(host.subrange(b + 1, b + 1 + third.len()) =~= third);
    lemma_find_after_part(host, '.', b + 1, third);
    reveal_with_fuel(field_start, 4);
}

/// The fourth part of an address is its region.
proof fn lemma_fourth_part(
    host: Seq<char>,
    first: Seq<char>,
    second: Seq<char>,
    third: Seq<char>,
    region: Seq<char>,
)
    requires
        !first.contains('.'),
        !second.contains('.'),
        !third.contains('.'),
        !region.contains('.'),
        ({
            let all = first + seq!['.'] + second + seq!['.'] + third + seq!['.'] + region;
            all == host || (all + seq!['.']).is_prefix_of(host)
        }),
    ensures
        region_of(host) == Some(region),
{
    let front = first + seq!['.'] + second + seq!['.'] + third;
    let all = front + seq!['.'] + region;
    let n = all.len() as int;
    if all != host {
        assert forall|i: int| 0 <= i <= n implies host[i] == (all + seq!['.'])[i] by {
            assert(host.subrange(0, n + 1)[i] == host[i]);
        }
    }
    let start = front.len() as int + 1;
    assert(host.subrange(0, start) =~= front + seq!['.']);
    lemma_parts(host, first, second, third);
    assert(host.subrange(start, start + region.len()) =~= region);
    lemma_find_after_part(host, '.', start, region);
}

} // verus!
