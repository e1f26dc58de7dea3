//! The `AdmissionReview` wire format.
//!
//! What the API server posts to a validating webhook, and what it expects back. A refusal is
//! structured: `status.details.causes[]` carries the wall, the reason and the field of each
//! refusal, and `status.message` a summary in one line.
use vstd::prelude::*;

use crate::admission;
use crate::admission::{
    Decision, DecisionModel, Refusal, RefusalModel, RequestMeta, RequestMetaModel, Verdict,
    VerdictModel,
};
use crate::json;
use crate::json::{
    check, check_members, member, object, read_field, read_required, Json, Members, Readable, Tree,
    Writable,
};
use crate::model;
use crate::text::{copied, owned, same};

verus! {

/// What the API server sends, and what it gets back.
#[derive(Debug, Clone, PartialEq, Eq)]
pub struct AdmissionReview {
    pub api_version: String,
    pub kind: String,
    /// Absent from anything that is no request.
    pub request: Option<AdmissionRequest>,
    pub response: Option<AdmissionResponse>,
}

/// What an [`AdmissionReview`] says.
#[verifier::ext_equal]
pub struct AdmissionReviewModel {
    pub api_version: Seq<char>,
    pub kind: Seq<char>,
    pub request: Option<AdmissionRequestModel>,
    pub response: Option<AdmissionResponseModel>,
}

impl DeepView for AdmissionReview {
    type V = AdmissionReviewModel;

    open spec fn deep_view(&self) -> AdmissionReviewModel {
        AdmissionReviewModel {
            api_version: self.api_version.deep_view(),
            kind: self.kind.deep_view(),
            request: self.request.deep_view(),
            response: self.response.deep_view(),
        }
    }
}

impl Default for AdmissionReview {
    fn default() -> (r: AdmissionReview)
        ensures
            r.deep_view() == AdmissionReview::nothing(),
    {
        let r = AdmissionReview {
            api_version: String::new(),
            kind: String::new(),
            request: None,
            response: None,
        };
        r
    }
}

impl Members for AdmissionReview {
    open spec fn member_fault(name: Seq<char>, v: Tree) -> Option<Seq<char>> {
        if name == "apiVersion"@ {
            String::fault(v)
        } else if name == "kind"@ {
            String::fault(v)
        } else if name == "request"@ {
            <Option<AdmissionRequest> as Readable>::fault(v)
        } else if name == "response"@ {
            <Option<AdmissionResponse> as Readable>::fault(v)
        } else {
            None
        }
    }

    fn check_member(name: &str, v: &Json) -> (r: Result<(), String>) {
        if same(name, "apiVersion") {
            check::<String>(v)
        } else if same(name, "kind") {
            check::<String>(v)
        } else if same(name, "request") {
            check::<Option<AdmissionRequest>>(v)
        } else if same(name, "response") {
            check::<Option<AdmissionResponse>>(v)
        } else {
            Ok(())
        }
    }
}

impl Readable for AdmissionReview {
    open spec fn fault(t: Tree) -> Option<Seq<char>> {
        let f = t.record_fault("struct AdmissionReview"@);
        let f = json::first_fault(f, json::members_fault::<AdmissionReview>(t));
        let f = json::first_fault(f, json::field_fault::<String>(t, "apiVersion"@, 0));
        let f = json::first_fault(f, json::field_fault::<String>(t, "kind"@, 1));
        let f = json::first_fault(f, json::field_fault::<Option<AdmissionRequest>>(t, "request"@, 2));
        let f = json::first_fault(f, json::field_fault::<Option<AdmissionResponse>>(t, "response"@, 3));
        json::first_fault(f, t.surplus_fault(4))
    }

    open spec fn value(t: Tree) -> AdmissionReviewModel {
        AdmissionReviewModel {
            api_version: json::field_value::<String>(t, "apiVersion"@, 0),
            kind: json::field_value::<String>(t, "kind"@, 1),
            request: json::field_value::<Option<AdmissionRequest>>(t, "request"@, 2),
            response: json::field_value::<Option<AdmissionResponse>>(t, "response"@, 3),
        }
    }

    open spec fn nothing() -> AdmissionReviewModel {
        AdmissionReviewModel {
            api_version: Seq::empty(),
            kind: Seq::empty(),
            request: None,
            response: None,
        }
    }

    fn read(j: &Json) -> (r: Result<Self, String>) {
        if let Err(e) = j.check_record("struct AdmissionReview") {
            return Err(e);
        }
        if let Err(e) = check_members::<AdmissionReview>(j) {
            return Err(e);
        }
        let api_version: String = match read_field(j, "apiVersion", 0) {
            Ok(x) => x,
            Err(e) => return Err(e),
        };
        let kind: String = match read_field(j, "kind", 1) {
            Ok(x) => x,
            Err(e) => return Err(e),
        };
        let request: Option<AdmissionRequest> = match read_field(j, "request", 2) {
            Ok(x) => x,
            Err(e) => return Err(e),
        };
        let response: Option<AdmissionResponse> = match read_field(j, "response", 3) {
            Ok(x) => x,
            Err(e) => return Err(e),
        };
        if let Err(e) = j.check_surplus(4) {
            return Err(e);
        }
        Ok(AdmissionReview { api_version, kind, request, response })
    }

    fn absent() -> (r: Self) {
        AdmissionReview::default()
    }
}

impl Writable for AdmissionReview {
    open spec fn tree(v: AdmissionReviewModel) -> Tree {
        Tree::Object(
            seq![("apiVersion"@, <String as Writable>::tree(v.api_version)), ("kind"@, <String as Writable>::tree(v.kind))] + json::optional("request"@, match v.request { Some(x) => Some(<AdmissionRequest as Writable>::tree(x)), None => None }) + json::optional("response"@, match v.response { Some(x) => Some(<AdmissionResponse as Writable>::tree(x)), None => None }),
        )
    }

    fn to_json(&self) -> (r: Json) {
        let mut m: Vec<(String, Json)> = Vec::new();
        m.push(member("apiVersion", self.api_version.to_json()));
        m.push(member("kind", self.kind.to_json()));
        if let Some(x) = &self.request {
            m.push(member("request", x.to_json()));
        }
        if let Some(x) = &self.response {
            m.push(member("response", x.to_json()));
        }
        let j = object(m);
        assert(j@->Object_0 =~= Self::tree(self.deep_view())->Object_0);
        j
    }
}

/// What is asked of the wall.
#[derive(Debug, Clone, PartialEq, Eq)]
pub struct AdmissionRequest {
    pub uid: String,
    pub namespace: String,
    pub name: String,
    pub operation: String,
    /// The object under review: for a pod admission, the whole `Pod`.
    pub object: Json,
    /// Who submitted it. The API server authenticates the requester and fills this in; no caller names
    /// its own submitter.
    pub user_info: UserInfo,
}

/// What an [`AdmissionRequest`] says.
#[verifier::ext_equal]
pub struct AdmissionRequestModel {
    pub uid: Seq<char>,
    pub namespace: Seq<char>,
    pub name: Seq<char>,
    pub operation: Seq<char>,
    pub object: Tree,
    pub user_info: UserInfoModel,
}

impl DeepView for AdmissionRequest {
    type V = AdmissionRequestModel;

    open spec fn deep_view(&self) -> AdmissionRequestModel {
        AdmissionRequestModel {
            uid: self.uid.deep_view(),
            namespace: self.namespace.deep_view(),
            name: self.name.deep_view(),
            operation: self.operation.deep_view(),
            object: self.object.deep_view(),
            user_info: self.user_info.deep_view(),
        }
    }
}

impl Default for AdmissionRequest {
    fn default() -> (r: AdmissionRequest)
        ensures
            r.deep_view() == AdmissionRequest::nothing(),
    {
        let r = AdmissionRequest {
            uid: String::new(),
            namespace: String::new(),
            name: String::new(),
            operation: String::new(),
            object: Json::Null,
            user_info: UserInfo::default(),
        };
        r
    }
}

impl Members for AdmissionRequest {
    open spec fn member_fault(name: Seq<char>, v: Tree) -> Option<Seq<char>> {
        if name == "uid"@ {
            String::fault(v)
        } else if name == "namespace"@ {
            String::fault(v)
        } else if name == "name"@ {
            String::fault(v)
        } else if name == "operation"@ {
            String::fault(v)
        } else if name == "object"@ {
            Json::fault(v)
        } else if name == "userInfo"@ {
            UserInfo::fault(v)
        } else {
            None
        }
    }

    fn check_member(name: &str, v: &Json) -> (r: Result<(), String>) {
        if same(name, "uid") {
            check::<String>(v)
        } else if same(name, "namespace") {
            check::<String>(v)
        } else if same(name, "name") {
            check::<String>(v)
        } else if same(name, "operation") {
            check::<String>(v)
        } else if same(name, "object") {
            check::<Json>(v)
        } else if same(name, "userInfo") {
            check::<UserInfo>(v)
        } else {
            Ok(())
        }
    }
}

impl Readable for AdmissionRequest {
    open spec fn fault(t: Tree) -> Option<Seq<char>> {
        let f = t.record_fault("struct AdmissionRequest"@);
        let f = json::first_fault(f, json::members_fault::<AdmissionRequest>(t));
        let f = json::first_fault(f, json::field_fault::<String>(t, "uid"@, 0));
        let f = json::first_fault(f, json::field_fault::<String>(t, "namespace"@, 1));
        let f = json::first_fault(f, json::field_fault::<String>(t, "name"@, 2));
        let f = json::first_fault(f, json::field_fault::<String>(t, "operation"@, 3));
        let f = json::first_fault(f, json::field_fault::<Json>(t, "object"@, 4));
        let f = json::first_fault(f, json::field_fault::<UserInfo>(t, "userInfo"@, 5));
        json::first_fault(f, t.surplus_fault(6))
    }

    open spec fn value(t: Tree) -> AdmissionRequestModel {
        AdmissionRequestModel {
            uid: json::field_value::<String>(t, "uid"@, 0),
            namespace: json::field_value::<String>(t, "namespace"@, 1),
            name: json::field_value::<String>(t, "name"@, 2),
            operation: json::field_value::<String>(t, "operation"@, 3),
            object: json::field_value::<Json>(t, "object"@, 4),
            user_info: json::field_value::<UserInfo>(t, "userInfo"@, 5),
        }
    }

    open spec fn nothing() -> AdmissionRequestModel {
        AdmissionRequestModel {
            uid: Seq::empty(),
            namespace: Seq::empty(),
            name: Seq::empty(),
            operation: Seq::empty(),
            object: Tree::Null,
            user_info: UserInfo::nothing(),
        }
    }

    fn read(j: &Json) -> (r: Result<Self, String>) {
        if let Err(e) = j.check_record("struct AdmissionRequest") {
            return Err(e);
        }
        if let Err(e) = check_members::<AdmissionRequest>(j) {
            return Err(e);
        }
        let uid: String = match read_field(j, "uid", 0) {
            Ok(x) => x,
            Err(e) => return Err(e),
        };
        let namespace: String = match read_field(j, "namespace", 1) {
            Ok(x) => x,
            Err(e) => return Err(e),
        };
        let name: String = match read_field(j, "name", 2) {
            Ok(x) => x,
            Err(e) => return Err(e),
        };
        let operation: String = match read_field(j, "operation", 3) {
            Ok(x) => x,
            Err(e) => return Err(e),
        };
        let object: Json = match read_field(j, "object", 4) {
            Ok(x) => x,
            Err(e) => return Err(e),
        };
        let user_info: UserInfo = match read_field(j, "userInfo", 5) {
            Ok(x) => x,
            Err(e) => return Err(e),
        };
        if let Err(e) = j.check_surplus(6) {
            return Err(e);
        }
        Ok(AdmissionRequest { uid, namespace, name, operation, object, user_info })
    }

    fn absent() -> (r: Self) {
        AdmissionRequest::default()
    }
}

impl Writable for AdmissionRequest {
    open spec fn tree(v: AdmissionRequestModel) -> Tree {
        Tree::Object(
            seq![
                ("uid"@, <String as Writable>::tree(v.uid)),
                ("namespace"@, <String as Writable>::tree(v.namespace)),
                ("name"@, <String as Writable>::tree(v.name)),
                ("operation"@, <String as Writable>::tree(v.operation)),
                ("object"@, <Json as Writable>::tree(v.object)),
                ("userInfo"@, <UserInfo as Writable>::tree(v.user_info)),
            ],
        )
    }

    fn to_json(&self) -> (r: Json) {
        let mut m: Vec<(String, Json)> = Vec::new();
        m.push(member("uid", self.uid.to_json()));
        m.push(member("namespace", self.namespace.to_json()));
        m.push(member("name", self.name.to_json()));
        m.push(member("operation", self.operation.to_json()));
        m.push(member("object", self.object.to_json()));
        m.push(member("userInfo", self.user_info.to_json()));
        let j = object(m);
        assert(j@->Object_0 =~= Self::tree(self.deep_view())->Object_0);
        j
    }
}

/// The authenticated requester, as the API server reports it.
#[derive(Debug, Clone, PartialEq, Eq)]
pub struct UserInfo {
    /// `system:serviceaccount:<namespace>:<name>` for a controller, or a person's identity.
    pub username: String,
}

/// What an [`UserInfo`] says.
#[verifier::ext_equal]
pub struct UserInfoModel {
    pub username: Seq<char>,
}

impl DeepView for UserInfo {
    type V = UserInfoModel;

    open spec fn deep_view(&self) -> UserInfoModel {
        UserInfoModel {
            username: self.username.deep_view(),
        }
    }
}

impl Default for UserInfo {
    fn default() -> (r: UserInfo)
        ensures
            r.deep_view() == UserInfo::nothing(),
    {
        let r = UserInfo {
            username: String::new(),
        };
        r
    }
}

impl Members for UserInfo {
    open spec fn member_fault(name: Seq<char>, v: Tree) -> Option<Seq<char>> {
        if name == "username"@ {
            String::fault(v)
        } else {
            None
        }
    }

    fn check_member(name: &str, v: &Json) -> (r: Result<(), String>) {
        if same(name, "username") {
            check::<String>(v)
        } else {
            Ok(())
        }
    }
}

impl Readable for UserInfo {
    open spec fn fault(t: Tree) -> Option<Seq<char>> {
        let f = t.record_fault("struct UserInfo"@);
        let f = json::first_fault(f, json::members_fault::<UserInfo>(t));
        let f = json::first_fault(f, json::field_fault::<String>(t, "username"@, 0));
        json::first_fault(f, t.surplus_fault(1))
    }

    open spec fn value(t: Tree) -> UserInfoModel {
        UserInfoModel {
            username: json::field_value::<String>(t, "username"@, 0),
        }
    }

    open spec fn nothing() -> UserInfoModel {
        UserInfoModel {
            username: Seq::empty(),
        }
    }

    fn read(j: &Json) -> (r: Result<Self, String>) {
        if let Err(e) = j.check_record("struct UserInfo") {
            return Err(e);
        }
        if let Err(e) = check_members::<UserInfo>(j) {
            return Err(e);
        }
        let username: String = match read_field(j, "username", 0) {
            Ok(x) => x,
            Err(e) => return Err(e),
        };
        if let Err(e) = j.check_surplus(1) {
            return Err(e);
        }
        Ok(UserInfo { username })
    }

    fn absent() -> (r: Self) {
        UserInfo::default()
    }
}

impl Writable for UserInfo {
    open spec fn tree(v: UserInfoModel) -> Tree {
        Tree::Object(
            seq![
                ("username"@, <String as Writable>::tree(v.username)),
            ],
        )
    }

    fn to_json(&self) -> (r: Json) {
        let mut m: Vec<(String, Json)> = Vec::new();
        m.push(member("username", self.username.to_json()));
        let j = object(m);
        assert(j@->Object_0 =~= Self::tree(self.deep_view())->Object_0);
        j
    }
}

/// What the wall answers.
#[derive(Debug, Clone, PartialEq, Eq)]
pub struct AdmissionResponse {
    pub uid: String,
    pub allowed: bool,
    pub status: Option<Status>,
    /// Shown to the submitter of an allowed admission.
    pub warnings: Vec<String>,
}

/// What an [`AdmissionResponse`] says.
#[verifier::ext_equal]
pub struct AdmissionResponseModel {
    pub uid: Seq<char>,
    pub allowed: bool,
    pub status: Option<StatusModel>,
    pub warnings: Seq<Seq<char>>,
}

impl DeepView for AdmissionResponse {
    type V = AdmissionResponseModel;

    open spec fn deep_view(&self) -> AdmissionResponseModel {
        AdmissionResponseModel {
            uid: self.uid.deep_view(),
            allowed: self.allowed.deep_view(),
            status: self.status.deep_view(),
            warnings: self.warnings.deep_view(),
        }
    }
}

impl Default for AdmissionResponse {
    fn default() -> (r: AdmissionResponse)
        ensures
            r.deep_view() == AdmissionResponse::nothing(),
    {
        let r = AdmissionResponse {
            uid: String::new(),
            allowed: false,
            status: None,
            warnings: Vec::new(),
        };
        assert(r.warnings.deep_view() =~= Seq::empty());
        r
    }
}

impl Members for AdmissionResponse {
    open spec fn member_fault(name: Seq<char>, v: Tree) -> Option<Seq<char>> {
        if name == "uid"@ {
            String::fault(v)
        } else if name == "allowed"@ {
            bool::fault(v)
        } else if name == "status"@ {
            <Option<Status> as Readable>::fault(v)
        } else if name == "warnings"@ {
            <Vec<String> as Readable>::fault(v)
        } else {
            None
        }
    }

    fn check_member(name: &str, v: &Json) -> (r: Result<(), String>) {
        if same(name, "uid") {
            check::<String>(v)
        } else if same(name, "allowed") {
            check::<bool>(v)
        } else if same(name, "status") {
            check::<Option<Status>>(v)
        } else if same(name, "warnings") {
            check::<Vec<String>>(v)
        } else {
            Ok(())
        }
    }
}

impl Readable for AdmissionResponse {
    open spec fn fault(t: Tree) -> Option<Seq<char>> {
        let f = t.record_fault("struct AdmissionResponse"@);
        let f = json::first_fault(f, json::members_fault::<AdmissionResponse>(t));
        let f = json::first_fault(
            f,
            json::required_fault::<String>(t, "uid"@, 0, "struct AdmissionResponse with 4 elements"@),
        );
        let f = json::first_fault(
            f,
            json::required_fault::<bool>(t, "allowed"@, 1, "struct AdmissionResponse with 4 elements"@),
        );
        let f = json::first_fault(f, json::field_fault::<Option<Status>>(t, "status"@, 2));
        let f = json::first_fault(f, json::field_fault::<Vec<String>>(t, "warnings"@, 3));
        json::first_fault(f, t.surplus_fault(4))
    }

    open spec fn value(t: Tree) -> AdmissionResponseModel {
        AdmissionResponseModel {
            uid: json::field_value::<String>(t, "uid"@, 0),
            allowed: json::field_value::<bool>(t, "allowed"@, 1),
            status: json::field_value::<Option<Status>>(t, "status"@, 2),
            warnings: json::field_value::<Vec<String>>(t, "warnings"@, 3),
        }
    }

    open spec fn nothing() -> AdmissionResponseModel {
        AdmissionResponseModel {
            uid: Seq::empty(),
            allowed: false,
            status: None,
            warnings: Seq::empty(),
        }
    }

    fn read(j: &Json) -> (r: Result<Self, String>) {
        if let Err(e) = j.check_record("struct AdmissionResponse") {
            return Err(e);
        }
        if let Err(e) = check_members::<AdmissionResponse>(j) {
            return Err(e);
        }
        let uid: String = match read_required(
            j,
            "uid",
            0,
            "struct AdmissionResponse with 4 elements",
        ) {
            Ok(x) => x,
            Err(e) => return Err(e),
        };
        let allowed: bool = match read_required(
            j,
            "allowed",
            1,
            "struct AdmissionResponse with 4 elements",
        ) {
            Ok(x) => x,
            Err(e) => return Err(e),
        };
        let status: Option<Status> = match read_field(j, "status", 2) {
            Ok(x) => x,
            Err(e) => return Err(e),
        };
        let warnings: Vec<String> = match read_field(j, "warnings", 3) {
            Ok(x) => x,
            Err(e) => return Err(e),
        };
        if let Err(e) = j.check_surplus(4) {
            return Err(e);
        }
        Ok(AdmissionResponse { uid, allowed, status, warnings })
    }

    fn absent() -> (r: Self) {
        AdmissionResponse::default()
    }
}

impl Writable for AdmissionResponse {
    open spec fn tree(v: AdmissionResponseModel) -> Tree {
        Tree::Object(
            seq![("uid"@, <String as Writable>::tree(v.uid)), ("allowed"@, <bool as Writable>::tree(v.allowed))] + json::optional("status"@, match v.status { Some(x) => Some(<Status as Writable>::tree(x)), None => None }) + json::optional("warnings"@, if v.warnings.len() > 0 { Some(<Vec<String> as Writable>::tree(v.warnings)) } else { None }),
        )
    }

    fn to_json(&self) -> (r: Json) {
        let mut m: Vec<(String, Json)> = Vec::new();
        m.push(member("uid", self.uid.to_json()));
        m.push(member("allowed", self.allowed.to_json()));
        if let Some(x) = &self.status {
            m.push(member("status", x.to_json()));
        }
        if self.warnings.len() > 0 {
            m.push(member("warnings", self.warnings.to_json()));
        }
        let j = object(m);
        assert(j@->Object_0 =~= Self::tree(self.deep_view())->Object_0);
        j
    }
}

/// Why something was not allowed.
#[derive(Debug, Clone, PartialEq, Eq)]
pub struct Status {
    pub code: u16,
    pub message: String,
    pub details: Option<Details>,
}

/// What a [`Status`] says.
#[verifier::ext_equal]
pub struct StatusModel {
    pub code: u16,
    pub message: Seq<char>,
    pub details: Option<DetailsModel>,
}

impl DeepView for Status {
    type V = StatusModel;

    open spec fn deep_view(&self) -> StatusModel {
        StatusModel {
            code: self.code.deep_view(),
            message: self.message.deep_view(),
            details: self.details.deep_view(),
        }
    }
}

impl Default for Status {
    fn default() -> (r: Status)
        ensures
            r.deep_view() == Status::nothing(),
    {
        let r = Status {
            code: 0,
            message: String::new(),
            details: None,
        };
        r
    }
}

impl Members for Status {
    open spec fn member_fault(name: Seq<char>, v: Tree) -> Option<Seq<char>> {
        if name == "code"@ {
            u16::fault(v)
        } else if name == "message"@ {
            String::fault(v)
        } else if name == "details"@ {
            <Option<Details> as Readable>::fault(v)
        } else {
            None
        }
    }

    fn check_member(name: &str, v: &Json) -> (r: Result<(), String>) {
        if same(name, "code") {
            check::<u16>(v)
        } else if same(name, "message") {
            check::<String>(v)
        } else if same(name, "details") {
            check::<Option<Details>>(v)
        } else {
            Ok(())
        }
    }
}

impl Readable for Status {
    open spec fn fault(t: Tree) -> Option<Seq<char>> {
        let f = t.record_fault("struct Status"@);
        let f = json::first_fault(f, json::members_fault::<Status>(t));
        let f = json::first_fault(
            f,
            json::required_fault::<u16>(t, "code"@, 0, "struct Status with 3 elements"@),
        );
        let f = json::first_fault(
            f,
            json::required_fault::<String>(t, "message"@, 1, "struct Status with 3 elements"@),
        );
        let f = json::first_fault(f, json::field_fault::<Option<Details>>(t, "details"@, 2));
        json::first_fault(f, t.surplus_fault(3))
    }

    open spec fn value(t: Tree) -> StatusModel {
        StatusModel {
            code: json::field_value::<u16>(t, "code"@, 0),
            message: json::field_value::<String>(t, "message"@, 1),
            details: json::field_value::<Option<Details>>(t, "details"@, 2),
        }
    }

    open spec fn nothing() -> StatusModel {
        StatusModel {
            code: 0,
            message: Seq::empty(),
            details: None,
        }
    }

    fn read(j: &Json) -> (r: Result<Self, String>) {
        if let Err(e) = j.check_record("struct Status") {
            return Err(e);
        }
        if let Err(e) = check_members::<Status>(j) {
            return Err(e);
        }
        let code: u16 = match read_required(
            j,
            "code",
            0,
            "struct Status with 3 elements",
        ) {
            Ok(x) => x,
            Err(e) => return Err(e),
        };
        let message: String = match read_required(
            j,
            "message",
            1,
            "struct Status with 3 elements",
        ) {
            Ok(x) => x,
            Err(e) => return Err(e),
        };
        let details: Option<Details> = match read_field(j, "details", 2) {
            Ok(x) => x,
            Err(e) => return Err(e),
        };
        if let Err(e) = j.check_surplus(3) {
            return Err(e);
        }
        Ok(Status { code, message, details })
    }

    fn absent() -> (r: Self) {
        Status::default()
    }
}

impl Writable for Status {
    open spec fn tree(v: StatusModel) -> Tree {
        Tree::Object(
            seq![("code"@, <u16 as Writable>::tree(v.code)), ("message"@, <String as Writable>::tree(v.message))] + json::optional("details"@, match v.details { Some(x) => Some(<Details as Writable>::tree(x)), None => None }),
        )
    }

    fn to_json(&self) -> (r: Json) {
        let mut m: Vec<(String, Json)> = Vec::new();
        m.push(member("code", self.code.to_json()));
        m.push(member("message", self.message.to_json()));
        if let Some(x) = &self.details {
            m.push(member("details", x.to_json()));
        }
        let j = object(m);
        assert(j@->Object_0 =~= Self::tree(self.deep_view())->Object_0);
        j
    }
}

/// The reasons, one by one.
#[derive(Debug, Clone, PartialEq, Eq)]
pub struct Details {
    pub causes: Vec<Cause>,
}

/// What a [`Details`] says.
#[verifier::ext_equal]
pub struct DetailsModel {
    pub causes: Seq<CauseModel>,
}

impl DeepView for Details {
    type V = DetailsModel;

    open spec fn deep_view(&self) -> DetailsModel {
        DetailsModel {
            causes: self.causes.deep_view(),
        }
    }
}

impl Default for Details {
    fn default() -> (r: Details)
        ensures
            r.deep_view() == Details::nothing(),
    {
        let r = Details {
            causes: Vec::new(),
        };
        assert(r.causes.deep_view() =~= Seq::empty());
        r
    }
}

impl Members for Details {
    open spec fn member_fault(name: Seq<char>, v: Tree) -> Option<Seq<char>> {
        if name == "causes"@ {
            <Vec<Cause> as Readable>::fault(v)
        } else {
            None
        }
    }

    fn check_member(name: &str, v: &Json) -> (r: Result<(), String>) {
        if same(name, "causes") {
            check::<Vec<Cause>>(v)
        } else {
            Ok(())
        }
    }
}

impl Readable for Details {
    open spec fn fault(t: Tree) -> Option<Seq<char>> {
        let f = t.record_fault("struct Details"@);
        let f = json::first_fault(f, json::members_fault::<Details>(t));
        let f = json::first_fault(f, json::field_fault::<Vec<Cause>>(t, "causes"@, 0));
        json::first_fault(f, t.surplus_fault(1))
    }

    open spec fn value(t: Tree) -> DetailsModel {
        DetailsModel {
            causes: json::field_value::<Vec<Cause>>(t, "causes"@, 0),
        }
    }

    open spec fn nothing() -> DetailsModel {
        DetailsModel {
            causes: Seq::empty(),
        }
    }

    fn read(j: &Json) -> (r: Result<Self, String>) {
        if let Err(e) = j.check_record("struct Details") {
            return Err(e);
        }
        if let Err(e) = check_members::<Details>(j) {
            return Err(e);
        }
        let causes: Vec<Cause> = match read_field(j, "causes", 0) {
            Ok(x) => x,
            Err(e) => return Err(e),
        };
        if let Err(e) = j.check_surplus(1) {
            return Err(e);
        }
        Ok(Details { causes })
    }

    fn absent() -> (r: Self) {
        Details::default()
    }
}

impl Writable for Details {
    open spec fn tree(v: DetailsModel) -> Tree {
        Tree::Object(
            seq![
                ("causes"@, <Vec<Cause> as Writable>::tree(v.causes)),
            ],
        )
    }

    fn to_json(&self) -> (r: Json) {
        let mut m: Vec<(String, Json)> = Vec::new();
        m.push(member("causes", self.causes.to_json()));
        let j = object(m);
        assert(j@->Object_0 =~= Self::tree(self.deep_view())->Object_0);
        j
    }
}

/// One machine-readable reason.
#[derive(Debug, Clone, PartialEq, Eq)]
pub struct Cause {
    /// The wall.
    pub reason: String,
    pub message: String,
    /// The field that it came from.
    pub field: String,
    /// What the manifest does grant in this dimension.
    pub grant_allows: Vec<String>,
}

/// What a [`Cause`] says.
#[verifier::ext_equal]
pub struct CauseModel {
    pub reason: Seq<char>,
    pub message: Seq<char>,
    pub field: Seq<char>,
    pub grant_allows: Seq<Seq<char>>,
}

impl DeepView for Cause {
    type V = CauseModel;

    open spec fn deep_view(&self) -> CauseModel {
        CauseModel {
            reason: self.reason.deep_view(),
            message: self.message.deep_view(),
            field: self.field.deep_view(),
            grant_allows: self.grant_allows.deep_view(),
        }
    }
}

impl Default for Cause {
    fn default() -> (r: Cause)
        ensures
            r.deep_view() == Cause::nothing(),
    {
        let r = Cause {
            reason: String::new(),
            message: String::new(),
            field: String::new(),
            grant_allows: Vec::new(),
        };
        assert(r.grant_allows.deep_view() =~= Seq::empty());
        r
    }
}

impl Members for Cause {
    open spec fn member_fault(name: Seq<char>, v: Tree) -> Option<Seq<char>> {
        if name == "reason"@ {
            String::fault(v)
        } else if name == "message"@ {
            String::fault(v)
        } else if name == "field"@ {
            String::fault(v)
        } else if name == "grantAllows"@ {
            <Vec<String> as Readable>::fault(v)
        } else {
            None
        }
    }

    fn check_member(name: &str, v: &Json) -> (r: Result<(), String>) {
        if same(name, "reason") {
            check::<String>(v)
        } else if same(name, "message") {
            check::<String>(v)
        } else if same(name, "field") {
            check::<String>(v)
        } else if same(name, "grantAllows") {
            check::<Vec<String>>(v)
        } else {
            Ok(())
        }
    }
}

impl Readable for Cause {
    open spec fn fault(t: Tree) -> Option<Seq<char>> {
        let f = t.record_fault("struct Cause"@);
        let f = json::first_fault(f, json::members_fault::<Cause>(t));
        let f = json::first_fault(
            f,
            json::required_fault::<String>(t, "reason"@, 0, "struct Cause with 4 elements"@),
        );
        let f = json::first_fault(
            f,
            json::required_fault::<String>(t, "message"@, 1, "struct Cause with 4 elements"@),
        );
        let f = json::first_fault(
            f,
            json::required_fault::<String>(t, "field"@, 2, "struct Cause with 4 elements"@),
        );
        let f = json::first_fault(f, json::field_fault::<Vec<String>>(t, "grantAllows"@, 3));
        json::first_fault(f, t.surplus_fault(4))
    }

    open spec fn value(t: Tree) -> CauseModel {
        CauseModel {
            reason: json::field_value::<String>(t, "reason"@, 0),
            message: json::field_value::<String>(t, "message"@, 1),
            field: json::field_value::<String>(t, "field"@, 2),
            grant_allows: json::field_value::<Vec<String>>(t, "grantAllows"@, 3),
        }
    }

    open spec fn nothing() -> CauseModel {
        CauseModel {
            reason: Seq::empty(),
            message: Seq::empty(),
            field: Seq::empty(),
            grant_allows: Seq::empty(),
        }
    }

    fn read(j: &Json) -> (r: Result<Self, String>) {
        if let Err(e) = j.check_record("struct Cause") {
            return Err(e);
        }
        if let Err(e) = check_members::<Cause>(j) {
            return Err(e);
        }
        let reason: String = match read_required(
            j,
            "reason",
            0,
            "struct Cause with 4 elements",
        ) {
            Ok(x) => x,
            Err(e) => return Err(e),
        };
        let message: String = match read_required(
            j,
            "message",
            1,
            "struct Cause with 4 elements",
        ) {
            Ok(x) => x,
            Err(e) => return Err(e),
        };
        let field: String = match read_required(
            j,
            "field",
            2,
            "struct Cause with 4 elements",
        ) {
            Ok(x) => x,
            Err(e) => return Err(e),
        };
        let grant_allows: Vec<String> = match read_field(j, "grantAllows", 3) {
            Ok(x) => x,
            Err(e) => return Err(e),
        };
        if let Err(e) = j.check_surplus(4) {
            return Err(e);
        }
        Ok(Cause { reason, message, field, grant_allows })
    }

    fn absent() -> (r: Self) {
        Cause::default()
    }
}

impl Writable for Cause {
    open spec fn tree(v: CauseModel) -> Tree {
        Tree::Object(
            seq![("reason"@, <String as Writable>::tree(v.reason)), ("message"@, <String as Writable>::tree(v.message)), ("field"@, <String as Writable>::tree(v.field))] + json::optional("grantAllows"@, if v.grant_allows.len() > 0 { Some(<Vec<String> as Writable>::tree(v.grant_allows)) } else { None }),
        )
    }

    fn to_json(&self) -> (r: Json) {
        let mut m: Vec<(String, Json)> = Vec::new();
        m.push(member("reason", self.reason.to_json()));
        m.push(member("message", self.message.to_json()));
        m.push(member("field", self.field.to_json()));
        if self.grant_allows.len() > 0 {
            m.push(member("grantAllows", self.grant_allows.to_json()));
        }
        let j = object(m);
        assert(j@->Object_0 =~= Self::tree(self.deep_view())->Object_0);
        j
    }
}

/// Why a review could not be read.
#[derive(Debug, Clone, PartialEq, Eq)]
pub enum ReviewError {
    Json(String),
    NotARequest,
}

/// What a [`ReviewError`] says.
#[verifier::ext_equal]
pub enum ReviewErrorModel {
    Json(Seq<char>),
    NotARequest,
}

impl DeepView for ReviewError {
    type V = ReviewErrorModel;

    open spec fn deep_view(&self) -> ReviewErrorModel {
        match self {
            ReviewError::Json(x) => ReviewErrorModel::Json(x.deep_view()),
            ReviewError::NotARequest => ReviewErrorModel::NotARequest,
        }
    }
}

impl ReviewErrorModel {
    /// The complaint in words.
    pub open spec fn message(self) -> Seq<char> {
        match self {
            ReviewErrorModel::Json(e) => "AdmissionReview is not valid JSON: "@ + e,
            ReviewErrorModel::NotARequest =>
                "not an AdmissionReview request: no `request` field. This wall will not answer a document it cannot read"@,
        }
    }
}

impl ReviewError {
    pub fn to_text(&self) -> (r: String)
        ensures
            r@ == self.deep_view().message(),
    {
        match self {
            ReviewError::Json(e) => owned("AdmissionReview is not valid JSON: ").concat(
                e.as_str(),
            ),
            ReviewError::NotARequest => owned(
                "not an AdmissionReview request: no `request` field. This wall will not answer a document it cannot read",
            ),
        }
    }
}

// ---------------------------------------------------------------------------------------------
// Reading a review
// ---------------------------------------------------------------------------------------------
/// The review that a document says. One without a `request` member is none.
pub open spec fn review_of(t: Tree) -> Result<AdmissionReviewModel, ReviewErrorModel> {
    if t.member("request"@) is None {
        Err(ReviewErrorModel::NotARequest)
    } else {
        match AdmissionReview::fault(t) {
            Some(e) => Err(ReviewErrorModel::Json(e)),
            None => Ok(AdmissionReview::value(t)),
        }
    }
}

/// The review that a text says.
pub open spec fn review_of_text(src: Seq<char>) -> Result<AdmissionReviewModel, ReviewErrorModel> {
    match json::parsed(src) {
        Ok(t) => review_of(t),
        Err(e) => Err(ReviewErrorModel::Json(e)),
    }
}

impl AdmissionReviewModel {
    /// The request, or the error that there is none.
    pub open spec fn asked(self) -> Result<AdmissionRequestModel, ReviewErrorModel> {
        match self.request {
            Some(q) => Ok(q),
            None => Err(ReviewErrorModel::NotARequest),
        }
    }
}

impl AdmissionReview {
    /// Read a review from a document.
    pub fn from_document(doc: &Json) -> (r: Result<AdmissionReview, ReviewError>)
        ensures
            model::outcome(r) == review_of(doc@),
    {
        if doc.member("request").is_none() {
            return Err(ReviewError::NotARequest);
        }
        match AdmissionReview::read(doc) {
            Ok(x) => Ok(x),
            Err(e) => Err(ReviewError::Json(e)),
        }
    }

    /// Read a review from its text.
    pub fn from_json(src: &str) -> (r: Result<AdmissionReview, ReviewError>)
        ensures
            model::outcome(r) == review_of_text(src@),
    {
        match Json::parse(src) {
            Ok(doc) => AdmissionReview::from_document(&doc),
            Err(e) => Err(ReviewError::Json(e)),
        }
    }

    /// The request, or the error that there is none.
    pub fn request(&self) -> (r: Result<&AdmissionRequest, ReviewError>)
        ensures
            model::outcome(r) == self.deep_view().asked(),
    {
        match &self.request {
            Some(q) => Ok(q),
            None => Err(ReviewError::NotARequest),
        }
    }
}

/// The name that an object gives itself: its own, or else the one that it is generated from.
pub open spec fn object_name(object: Tree) -> Seq<char> {
    let found = match object.at("metadata"@, "name"@) {
        Some(v) => Some(v),
        None => object.at("metadata"@, "generateName"@),
    };
    match found {
        Some(v) => match v.as_text() {
            Some(s) => s,
            None => Seq::empty(),
        },
        None => Seq::empty(),
    }
}

impl AdmissionRequestModel {
    /// Who asked, and for what. The name is the request's own, or else the object's; nobody
    /// authenticated is nobody, not somebody with an empty name.
    pub open spec fn who(self) -> RequestMetaModel {
        RequestMetaModel {
            uid: self.uid,
            namespace: self.namespace,
            name: if self.name.len() == 0 {
                object_name(self.object)
            } else {
                self.name
            },
            signer: if self.user_info.username.len() == 0 {
                None
            } else {
                Some(self.user_info.username)
            },
        }
    }
}

/// The name that an object gives itself.
fn name_of_object(object: &Json) -> (r: String)
    ensures
        r@ == object_name(object@),
{
    let found: Option<&Json> = match object.at("metadata", "name") {
        Some(v) => Some(v),
        None => object.at("metadata", "generateName"),
    };
    match found {
        Some(v) => match v.as_text() {
            Some(s) => s.clone(),
            None => String::new(),
        },
        None => String::new(),
    }
}

impl AdmissionRequest {
    /// Who asked, and for what.
    pub fn meta(&self) -> (r: RequestMeta)
        ensures
            r.deep_view() == self.deep_view().who(),
    {
        let name: String = if self.name.as_str().unicode_len() == 0 {
            name_of_object(&self.object)
        } else {
            self.name.clone()
        };
        let signer: Option<String> = if self.user_info.username.as_str().unicode_len() == 0 {
            None
        } else {
            Some(self.user_info.username.clone())
        };
        RequestMeta { uid: self.uid.clone(), namespace: self.namespace.clone(), name, signer }
    }

    /// The object as text, for the compiler.
    pub fn object_json(&self) -> (r: String)
        ensures
            r@ == json::rendered(self.deep_view().object),
    {
        self.object.to_text()
    }
}

// ---------------------------------------------------------------------------------------------
// Answering
// ---------------------------------------------------------------------------------------------
/// A review that carries only a response.
pub open spec fn answer(response: AdmissionResponseModel) -> AdmissionReviewModel {
    AdmissionReviewModel {
        api_version: "admission.k8s.io/v1"@,
        kind: "AdmissionReview"@,
        request: None,
        response: Some(response),
    }
}

/// One refusal as a cause.
pub open spec fn cause_of(r: RefusalModel) -> CauseModel {
    CauseModel {
        reason: r.wall.word(),
        message: r.effect + ": "@ + r.reason,
        field: r.source,
        grant_allows: r.grant_allows,
    }
}

/// What is answered to a decision: allowed exactly where it admits, with what was not checked and
/// what cannot be enforced as warnings; or 403, with every refusal as a cause.
pub open spec fn response_to(uid: Seq<char>, d: DecisionModel) -> AdmissionReviewModel {
    match d.verdict {
        VerdictModel::Admit => answer(
            AdmissionResponseModel {
                uid,
                allowed: true,
                status: None,
                warnings: d.unchecked + d.unenforceable,
            },
        ),
        VerdictModel::Deny { first, all } => answer(
            AdmissionResponseModel {
                uid,
                allowed: false,
                status: Some(
                    StatusModel {
                        code: 403,
                        message: first.effect + " refused by the "@ + first.wall.word() + " wall: "@
                            + first.reason,
                        details: Some(
                            DetailsModel { causes: Seq::new(all.len(), |i: int| cause_of(all[i])) },
                        ),
                    },
                ),
                warnings: Seq::empty(),
            },
        ),
    }
}

/// What is answered where nothing was decided: not allowed, and 500, because that is no decision.
pub open spec fn undecided(uid: Seq<char>, why: Seq<char>) -> AdmissionReviewModel {
    answer(
        AdmissionResponseModel {
            uid,
            allowed: false,
            status: Some(
                StatusModel {
                    code: 500,
                    message: "the lex-k8s admission wall could not run, so it did not decide: "@
                        + why,
                    details: None,
                },
            ),
            warnings: Seq::empty(),
        },
    )
}

/// A verdict with one reason and no causes: not allowed, and 403.
pub open spec fn refused(uid: Seq<char>, why: Seq<char>) -> AdmissionReviewModel {
    answer(
        AdmissionResponseModel {
            uid,
            allowed: false,
            status: Some(StatusModel { code: 403, message: why, details: None }),
            warnings: Seq::empty(),
        },
    )
}

/// Allowed, with a note.
pub open spec fn allowed_with(uid: Seq<char>, note: Seq<char>) -> AdmissionReviewModel {
    answer(AdmissionResponseModel { uid, allowed: true, status: None, warnings: seq![note] })
}

fn wrap(response: AdmissionResponse) -> (r: AdmissionReview)
    ensures
        r.deep_view() == answer(response.deep_view()),
{
    AdmissionReview {
        api_version: owned("admission.k8s.io/v1"),
        kind: owned("AdmissionReview"),
        request: None,
        response: Some(response),
    }
}

fn no_warnings() -> (r: Vec<String>)
    ensures
        r.deep_view() == Seq::<Seq<char>>::empty(),
{
    let r: Vec<String> = Vec::new();
    assert(r.deep_view() =~= Seq::<Seq<char>>::empty());
    r
}

fn list_causes(all: &Vec<Refusal>) -> (r: Vec<Cause>)
    ensures
        r.deep_view() == Seq::new(all.deep_view().len(), |i: int| cause_of(all.deep_view()[i])),
{
    let mut out: Vec<Cause> = Vec::new();
    let mut i: usize = 0;
    while i < all.len()
        invariant
            i <= all.len(),
            out@.len() == i,
            forall|k: int|
                0 <= k < i ==> (#[trigger] out@[k]).deep_view() == cause_of(all@[k].deep_view()),
        decreases all.len() - i,
    {
        let r = &all[i];
        out.push(
            Cause {
                reason: owned(r.wall.as_str()),
                message: r.effect.clone().concat(": ").concat(r.reason.as_str()),
                field: r.source.clone(),
                grant_allows: copied(&r.grant_allows),
            },
        );
        i += 1;
    }
    assert(out.deep_view() =~= Seq::new(
        all.deep_view().len(),
        |i: int| cause_of(all.deep_view()[i]),
    ));
    out
}

/// Turn a decision into the response that the API server expects.
pub fn respond(uid: &str, decision: &Decision) -> (r: AdmissionReview)
    ensures
        r.deep_view() == response_to(uid@, decision.deep_view()),
{
    match &decision.verdict {
        Verdict::Admit => {
            let mut warnings = copied(&decision.unchecked);
            let mut more = copied(&decision.unenforceable);
            let ghost both = warnings.deep_view() + more.deep_view();
            warnings.append(&mut more);
            assert(warnings.deep_view() =~= both);
            wrap(AdmissionResponse { uid: owned(uid), allowed: true, status: None, warnings })
        },
        Verdict::Deny { first, all } => {
            let message = first.effect.clone().concat(" refused by the ").concat(
                first.wall.as_str(),
            ).concat(" wall: ").concat(first.reason.as_str());
            let status = Status {
                code: 403,
                message,
                details: Some(Details { causes: list_causes(all) }),
            };
            wrap(
                AdmissionResponse {
                    uid: owned(uid),
                    allowed: false,
                    status: Some(status),
                    warnings: no_warnings(),
                },
            )
        },
    }
}

/// The response where the wall could not run. With `failurePolicy: Fail` the API server would
/// reject the request anyway; the message says that nothing was decided.
pub fn cannot_run(uid: &str, why: &str) -> (r: AdmissionReview)
    ensures
        r.deep_view() == undecided(uid@, why@),
{
    let message = owned(
        "the lex-k8s admission wall could not run, so it did not decide: ",
    ).concat(why);
    wrap(
        AdmissionResponse {
            uid: owned(uid),
            allowed: false,
            status: Some(Status { code: 500, message, details: None }),
            warnings: no_warnings(),
        },
    )
}

/// A verdict with one reason. It is a decision, not a malfunction.
pub fn refuse(uid: &str, why: &str) -> (r: AdmissionReview)
    ensures
        r.deep_view() == refused(uid@, why@),
{
    wrap(
        AdmissionResponse {
            uid: owned(uid),
            allowed: false,
            status: Some(Status { code: 403, message: owned(why), details: None }),
            warnings: no_warnings(),
        },
    )
}

/// Allowed, with a note for whoever applied it.
pub fn allow(uid: &str, note: &str) -> (r: AdmissionReview)
    ensures
        r.deep_view() == allowed_with(uid@, note@),
{
    let mut warnings: Vec<String> = Vec::new();
    warnings.push(owned(note));
    assert(warnings.deep_view() =~= seq![note@]);
    wrap(AdmissionResponse { uid: owned(uid), allowed: true, status: None, warnings })
}

// ---------------------------------------------------------------------------------------------
// Laws
// ---------------------------------------------------------------------------------------------
/// An answer to a decision echoes the uid it was asked under, allows exactly where the decision
/// admits, is a 403 exactly where it denies, and gives each refusal as a cause, in order.
pub proof fn an_answer_says_what_was_decided(uid: Seq<char>, d: DecisionModel)
    ensures
        ({
            let review = response_to(uid, d);
            let response = review.response->0;
            &&& review.response is Some
            &&& review.request is None
            &&& response.uid == uid
            &&& response.allowed <==> d.verdict is Admit
            &&& d.verdict is Admit ==> response.status is None
            &&& d.verdict matches VerdictModel::Deny { all, .. } ==> {
                &&& response.status is Some
                &&& response.status->0.code == 403
                &&& response.status->0.details is Some
                &&& response.status->0.details->0.causes == Seq::new(
                    all.len(),
                    |i: int| cause_of(all[i]),
                )
            }
        }),
{
}

/// Not to have decided is never an admission, and never looks like a refusal.
pub proof fn an_undecided_request_is_neither_allowed_nor_refused(
    uid: Seq<char>,
    why: Seq<char>,
    d: DecisionModel,
)
    ensures
        undecided(uid, why).response matches Some(r) && !r.allowed && r.uid == uid,
        undecided(uid, why) != response_to(uid, d),
{
    assert(undecided(uid, why).response->0.status->0.code == 500);
}

/// A request with no authenticated user has no signer, and any other has its user's name.
pub proof fn a_signer_is_the_authenticated_user(q: AdmissionRequestModel)
    ensures
        q.who().signer is None <==> q.user_info.username.len() == 0,
        q.who().signer matches Some(s) ==> s == q.user_info.username,
{
}

/// An admission review is read field by field: each from the member of its name or the item of its place, and left
/// empty where there is neither.
pub proof fn an_admission_review_is_read_field_by_field(
    members: Seq<(Seq<char>, Tree)>,
    items: Seq<Tree>,
    i: int,
)
    requires
        json::are_distinct(members),
    ensures
        0 <= i < members.len() && members[i].0 == "apiVersion"@ ==> AdmissionReview::value(Tree::Object(members)).api_version
            == String::value(members[i].1),
        !json::is_there(members, "apiVersion"@) ==> AdmissionReview::value(Tree::Object(members)).api_version == String::nothing(),
        items.len() > 0 ==> AdmissionReview::value(Tree::List(items)).api_version == String::value(items[0]),
        0 <= i < members.len() && members[i].0 == "kind"@ ==> AdmissionReview::value(Tree::Object(members)).kind
            == String::value(members[i].1),
        !json::is_there(members, "kind"@) ==> AdmissionReview::value(Tree::Object(members)).kind == String::nothing(),
        items.len() > 1 ==> AdmissionReview::value(Tree::List(items)).kind == String::value(items[1]),
        0 <= i < members.len() && members[i].0 == "request"@ ==> AdmissionReview::value(Tree::Object(members)).request
            == <Option<AdmissionRequest> as Readable>::value(members[i].1),
        !json::is_there(members, "request"@) ==> AdmissionReview::value(Tree::Object(members)).request == <Option<AdmissionRequest> as Readable>::nothing(),
        items.len() > 2 ==> AdmissionReview::value(Tree::List(items)).request == <Option<AdmissionRequest> as Readable>::value(items[2]),
        0 <= i < members.len() && members[i].0 == "response"@ ==> AdmissionReview::value(Tree::Object(members)).response
            == <Option<AdmissionResponse> as Readable>::value(members[i].1),
        !json::is_there(members, "response"@) ==> AdmissionReview::value(Tree::Object(members)).response == <Option<AdmissionResponse> as Readable>::nothing(),
        items.len() > 3 ==> AdmissionReview::value(Tree::List(items)).response == <Option<AdmissionResponse> as Readable>::value(items[3]),
{
    json::a_field_is_read_by_name_or_place::<String>(members, items, i, "apiVersion"@, 0);
    json::a_field_is_read_by_name_or_place::<String>(members, items, i, "kind"@, 1);
    json::a_field_is_read_by_name_or_place::<Option<AdmissionRequest>>(members, items, i, "request"@, 2);
    json::a_field_is_read_by_name_or_place::<Option<AdmissionResponse>>(members, items, i, "response"@, 3);
}

/// An admission review is read wherever each of its members can be.
pub proof fn an_admission_review_is_read_where_its_members_are(members: Seq<(Seq<char>, Tree)>)
    requires
        json::are_distinct(members),
        forall|j: int|
            0 <= j < members.len() && (#[trigger] members[j]).0 == "apiVersion"@ ==> String::fault(members[j].1) is None,
        forall|j: int|
            0 <= j < members.len() && (#[trigger] members[j]).0 == "kind"@ ==> String::fault(members[j].1) is None,
        forall|j: int|
            0 <= j < members.len() && (#[trigger] members[j]).0 == "request"@ ==> <Option<AdmissionRequest> as Readable>::fault(members[j].1) is None,
        forall|j: int|
            0 <= j < members.len() && (#[trigger] members[j]).0 == "response"@ ==> <Option<AdmissionResponse> as Readable>::fault(members[j].1) is None,
    ensures
        AdmissionReview::fault(Tree::Object(members)) is None,
{
    assert forall|j: int| 0 <= j < members.len() implies AdmissionReview::member_fault(
        (#[trigger] members[j]).0,
        members[j].1,
    ) is None by {}
    json::members_are_read_where_each_is::<AdmissionReview>(members);
    assert(json::field_fault::<String>(Tree::Object(members), "apiVersion"@, 0) is None) by {
        json::a_member_is_found_by_name(members, "apiVersion"@);
        if let Some(v) = json::lookup(members, "apiVersion"@) {
            let j = choose|j: int| 0 <= j < members.len() && members[j] == ("apiVersion"@, v);
            assert(members[j].0 == "apiVersion"@);
        }
    }
    assert(json::field_fault::<String>(Tree::Object(members), "kind"@, 1) is None) by {
        json::a_member_is_found_by_name(members, "kind"@);
        if let Some(v) = json::lookup(members, "kind"@) {
            let j = choose|j: int| 0 <= j < members.len() && members[j] == ("kind"@, v);
            assert(members[j].0 == "kind"@);
        }
    }
    assert(json::field_fault::<Option<AdmissionRequest>>(Tree::Object(members), "request"@, 2) is None) by {
        json::a_member_is_found_by_name(members, "request"@);
        if let Some(v) = json::lookup(members, "request"@) {
            let j = choose|j: int| 0 <= j < members.len() && members[j] == ("request"@, v);
            assert(members[j].0 == "request"@);
        }
    }
    assert(json::field_fault::<Option<AdmissionResponse>>(Tree::Object(members), "response"@, 3) is None) by {
        json::a_member_is_found_by_name(members, "response"@);
        if let Some(v) = json::lookup(members, "response"@) {
            let j = choose|j: int| 0 <= j < members.len() && members[j] == ("response"@, v);
            assert(members[j].0 == "response"@);
        }
    }
}

/// An admission review is refused for any one member that cannot be read.
pub proof fn an_admission_review_is_refused_for_one_member(members: Seq<(Seq<char>, Tree)>, i: int)
    requires
        json::are_distinct(members),
    ensures
        0 <= i < members.len() && members[i].0 == "apiVersion"@ && String::fault(members[i].1) is Some
            ==> AdmissionReview::fault(Tree::Object(members)) is Some,
        0 <= i < members.len() && members[i].0 == "kind"@ && String::fault(members[i].1) is Some
            ==> AdmissionReview::fault(Tree::Object(members)) is Some,
        0 <= i < members.len() && members[i].0 == "request"@ && <Option<AdmissionRequest> as Readable>::fault(members[i].1) is Some
            ==> AdmissionReview::fault(Tree::Object(members)) is Some,
        0 <= i < members.len() && members[i].0 == "response"@ && <Option<AdmissionResponse> as Readable>::fault(members[i].1) is Some
            ==> AdmissionReview::fault(Tree::Object(members)) is Some,
{
    json::a_field_is_read_by_name_or_place::<String>(members, Seq::empty(), i, "apiVersion"@, 0);
    json::a_field_is_read_by_name_or_place::<String>(members, Seq::empty(), i, "kind"@, 1);
    json::a_field_is_read_by_name_or_place::<Option<AdmissionRequest>>(members, Seq::empty(), i, "request"@, 2);
    json::a_field_is_read_by_name_or_place::<Option<AdmissionResponse>>(members, Seq::empty(), i, "response"@, 3);
}

/// An admission request is read field by field: each from the member of its name or the item of its place, and left
/// empty where there is neither.
pub proof fn an_admission_request_is_read_field_by_field(
    members: Seq<(Seq<char>, Tree)>,
    items: Seq<Tree>,
    i: int,
)
    requires
        json::are_distinct(members),
    ensures
        0 <= i < members.len() && members[i].0 == "uid"@ ==> AdmissionRequest::value(Tree::Object(members)).uid
            == String::value(members[i].1),
        !json::is_there(members, "uid"@) ==> AdmissionRequest::value(Tree::Object(members)).uid == String::nothing(),
        items.len() > 0 ==> AdmissionRequest::value(Tree::List(items)).uid == String::value(items[0]),
        0 <= i < members.len() && members[i].0 == "namespace"@ ==> AdmissionRequest::value(Tree::Object(members)).namespace
            == String::value(members[i].1),
        !json::is_there(members, "namespace"@) ==> AdmissionRequest::value(Tree::Object(members)).namespace == String::nothing(),
        items.len() > 1 ==> AdmissionRequest::value(Tree::List(items)).namespace == String::value(items[1]),
        0 <= i < members.len() && members[i].0 == "name"@ ==> AdmissionRequest::value(Tree::Object(members)).name
            == String::value(members[i].1),
        !json::is_there(members, "name"@) ==> AdmissionRequest::value(Tree::Object(members)).name == String::nothing(),
        items.len() > 2 ==> AdmissionRequest::value(Tree::List(items)).name == String::value(items[2]),
        0 <= i < members.len() && members[i].0 == "operation"@ ==> AdmissionRequest::value(Tree::Object(members)).operation
            == String::value(members[i].1),
        !json::is_there(members, "operation"@) ==> AdmissionRequest::value(Tree::Object(members)).operation == String::nothing(),
        items.len() > 3 ==> AdmissionRequest::value(Tree::List(items)).operation == String::value(items[3]),
        0 <= i < members.len() && members[i].0 == "object"@ ==> AdmissionRequest::value(Tree::Object(members)).object
            == Json::value(members[i].1),
        !json::is_there(members, "object"@) ==> AdmissionRequest::value(Tree::Object(members)).object == Json::nothing(),
        items.len() > 4 ==> AdmissionRequest::value(Tree::List(items)).object == Json::value(items[4]),
        0 <= i < members.len() && members[i].0 == "userInfo"@ ==> AdmissionRequest::value(Tree::Object(members)).user_info
            == UserInfo::value(members[i].1),
        !json::is_there(members, "userInfo"@) ==> AdmissionRequest::value(Tree::Object(members)).user_info == UserInfo::nothing(),
        items.len() > 5 ==> AdmissionRequest::value(Tree::List(items)).user_info == UserInfo::value(items[5]),
{
    json::a_field_is_read_by_name_or_place::<String>(members, items, i, "uid"@, 0);
    json::a_field_is_read_by_name_or_place::<String>(members, items, i, "namespace"@, 1);
    json::a_field_is_read_by_name_or_place::<String>(members, items, i, "name"@, 2);
    json::a_field_is_read_by_name_or_place::<String>(members, items, i, "operation"@, 3);
    json::a_field_is_read_by_name_or_place::<Json>(members, items, i, "object"@, 4);
    json::a_field_is_read_by_name_or_place::<UserInfo>(members, items, i, "userInfo"@, 5);
}

/// An admission request is read wherever each of its members can be.
pub proof fn an_admission_request_is_read_where_its_members_are(members: Seq<(Seq<char>, Tree)>)
    requires
        json::are_distinct(members),
        forall|j: int|
            0 <= j < members.len() && (#[trigger] members[j]).0 == "uid"@ ==> String::fault(members[j].1) is None,
        forall|j: int|
            0 <= j < members.len() && (#[trigger] members[j]).0 == "namespace"@ ==> String::fault(members[j].1) is None,
        forall|j: int|
            0 <= j < members.len() && (#[trigger] members[j]).0 == "name"@ ==> String::fault(members[j].1) is None,
        forall|j: int|
            0 <= j < members.len() && (#[trigger] members[j]).0 == "operation"@ ==> String::fault(members[j].1) is None,
        forall|j: int|
            0 <= j < members.len() && (#[trigger] members[j]).0 == "object"@ ==> Json::fault(members[j].1) is None,
        forall|j: int|
            0 <= j < members.len() && (#[trigger] members[j]).0 == "userInfo"@ ==> UserInfo::fault(members[j].1) is None,
    ensures
        AdmissionRequest::fault(Tree::Object(members)) is None,
{
    assert forall|j: int| 0 <= j < members.len() implies AdmissionRequest::member_fault(
        (#[trigger] members[j]).0,
        members[j].1,
    ) is None by {}
    json::members_are_read_where_each_is::<AdmissionRequest>(members);
    assert(json::field_fault::<String>(Tree::Object(members), "uid"@, 0) is None) by {
        json::a_member_is_found_by_name(members, "uid"@);
        if let Some(v) = json::lookup(members, "uid"@) {
            let j = choose|j: int| 0 <= j < members.len() && members[j] == ("uid"@, v);
            assert(members[j].0 == "uid"@);
        }
    }
    assert(json::field_fault::<String>(Tree::Object(members), "namespace"@, 1) is None) by {
        json::a_member_is_found_by_name(members, "namespace"@);
        if let Some(v) = json::lookup(members, "namespace"@) {
            let j = choose|j: int| 0 <= j < members.len() && members[j] == ("namespace"@, v);
            assert(members[j].0 == "namespace"@);
        }
    }
    assert(json::field_fault::<String>(Tree::Object(members), "name"@, 2) is None) by {
        json::a_member_is_found_by_name(members, "name"@);
        if let Some(v) = json::lookup(members, "name"@) {
            let j = choose|j: int| 0 <= j < members.len() && members[j] == ("name"@, v);
            assert(members[j].0 == "name"@);
        }
    }
    assert(json::field_fault::<String>(Tree::Object(members), "operation"@, 3) is None) by {
        json::a_member_is_found_by_name(members, "operation"@);
        if let Some(v) = json::lookup(members, "operation"@) {
            let j = choose|j: int| 0 <= j < members.len() && members[j] == ("operation"@, v);
            assert(members[j].0 == "operation"@);
        }
    }
    assert(json::field_fault::<Json>(Tree::Object(members), "object"@, 4) is None) by {
        json::a_member_is_found_by_name(members, "object"@);
        if let Some(v) = json::lookup(members, "object"@) {
            let j = choose|j: int| 0 <= j < members.len() && members[j] == ("object"@, v);
            assert(members[j].0 == "object"@);
        }
    }
    assert(json::field_fault::<UserInfo>(Tree::Object(members), "userInfo"@, 5) is None) by {
        json::a_member_is_found_by_name(members, "userInfo"@);
        if let Some(v) = json::lookup(members, "userInfo"@) {
            let j = choose|j: int| 0 <= j < members.len() && members[j] == ("userInfo"@, v);
            assert(members[j].0 == "userInfo"@);
        }
    }
}

/// An admission request is refused for any one member that cannot be read.
pub proof fn an_admission_request_is_refused_for_one_member(members: Seq<(Seq<char>, Tree)>, i: int)
    requires
        json::are_distinct(members),
    ensures
        0 <= i < members.len() && members[i].0 == "uid"@ && String::fault(members[i].1) is Some
            ==> AdmissionRequest::fault(Tree::Object(members)) is Some,
        0 <= i < members.len() && members[i].0 == "namespace"@ && String::fault(members[i].1) is Some
            ==> AdmissionRequest::fault(Tree::Object(members)) is Some,
        0 <= i < members.len() && members[i].0 == "name"@ && String::fault(members[i].1) is Some
            ==> AdmissionRequest::fault(Tree::Object(members)) is Some,
        0 <= i < members.len() && members[i].0 == "operation"@ && String::fault(members[i].1) is Some
            ==> AdmissionRequest::fault(Tree::Object(members)) is Some,
        0 <= i < members.len() && members[i].0 == "object"@ && Json::fault(members[i].1) is Some
            ==> AdmissionRequest::fault(Tree::Object(members)) is Some,
        0 <= i < members.len() && members[i].0 == "userInfo"@ && UserInfo::fault(members[i].1) is Some
            ==> AdmissionRequest::fault(Tree::Object(members)) is Some,
{
    json::a_field_is_read_by_name_or_place::<String>(members, Seq::empty(), i, "uid"@, 0);
    json::a_field_is_read_by_name_or_place::<String>(members, Seq::empty(), i, "namespace"@, 1);
    json::a_field_is_read_by_name_or_place::<String>(members, Seq::empty(), i, "name"@, 2);
    json::a_field_is_read_by_name_or_place::<String>(members, Seq::empty(), i, "operation"@, 3);
    json::a_field_is_read_by_name_or_place::<Json>(members, Seq::empty(), i, "object"@, 4);
    json::a_field_is_read_by_name_or_place::<UserInfo>(members, Seq::empty(), i, "userInfo"@, 5);
}

/// An user info is read field by field: each from the member of its name or the item of its place, and left
/// empty where there is neither.
pub proof fn an_user_info_is_read_field_by_field(
    members: Seq<(Seq<char>, Tree)>,
    items: Seq<Tree>,
    i: int,
)
    requires
        json::are_distinct(members),
    ensures
        0 <= i < members.len() && members[i].0 == "username"@ ==> UserInfo::value(Tree::Object(members)).username
            == String::value(members[i].1),
        !json::is_there(members, "username"@) ==> UserInfo::value(Tree::Object(members)).username == String::nothing(),
        items.len() > 0 ==> UserInfo::value(Tree::List(items)).username == String::value(items[0]),
{
    json::a_field_is_read_by_name_or_place::<String>(members, items, i, "username"@, 0);
}

/// An user info is read wherever each of its members can be.
pub proof fn an_user_info_is_read_where_its_members_are(members: Seq<(Seq<char>, Tree)>)
    requires
        json::are_distinct(members),
        forall|j: int|
            0 <= j < members.len() && (#[trigger] members[j]).0 == "username"@ ==> String::fault(members[j].1) is None,
    ensures
        UserInfo::fault(Tree::Object(members)) is None,
{
    assert forall|j: int| 0 <= j < members.len() implies UserInfo::member_fault(
        (#[trigger] members[j]).0,
        members[j].1,
    ) is None by {}
    json::members_are_read_where_each_is::<UserInfo>(members);
    assert(json::field_fault::<String>(Tree::Object(members), "username"@, 0) is None) by {
        json::a_member_is_found_by_name(members, "username"@);
        if let Some(v) = json::lookup(members, "username"@) {
            let j = choose|j: int| 0 <= j < members.len() && members[j] == ("username"@, v);
            assert(members[j].0 == "username"@);
        }
    }
}

/// An user info is refused for any one member that cannot be read.
pub proof fn an_user_info_is_refused_for_one_member(members: Seq<(Seq<char>, Tree)>, i: int)
    requires
        json::are_distinct(members),
    ensures
        0 <= i < members.len() && members[i].0 == "username"@ && String::fault(members[i].1) is Some
            ==> UserInfo::fault(Tree::Object(members)) is Some,
{
    json::a_field_is_read_by_name_or_place::<String>(members, Seq::empty(), i, "username"@, 0);
}

/// An admission response is read field by field: each from the member of its name or the item of its place, and left
/// empty where there is neither.
pub proof fn an_admission_response_is_read_field_by_field(
    members: Seq<(Seq<char>, Tree)>,
    items: Seq<Tree>,
    i: int,
)
    requires
        json::are_distinct(members),
    ensures
        0 <= i < members.len() && members[i].0 == "uid"@ ==> AdmissionResponse::value(Tree::Object(members)).uid
            == String::value(members[i].1),
        !json::is_there(members, "uid"@) ==> AdmissionResponse::value(Tree::Object(members)).uid == String::nothing(),
        items.len() > 0 ==> AdmissionResponse::value(Tree::List(items)).uid == String::value(items[0]),
        0 <= i < members.len() && members[i].0 == "allowed"@ ==> AdmissionResponse::value(Tree::Object(members)).allowed
            == bool::value(members[i].1),
        !json::is_there(members, "allowed"@) ==> AdmissionResponse::value(Tree::Object(members)).allowed == bool::nothing(),
        items.len() > 1 ==> AdmissionResponse::value(Tree::List(items)).allowed == bool::value(items[1]),
        0 <= i < members.len() && members[i].0 == "status"@ ==> AdmissionResponse::value(Tree::Object(members)).status
            == <Option<Status> as Readable>::value(members[i].1),
        !json::is_there(members, "status"@) ==> AdmissionResponse::value(Tree::Object(members)).status == <Option<Status> as Readable>::nothing(),
        items.len() > 2 ==> AdmissionResponse::value(Tree::List(items)).status == <Option<Status> as Readable>::value(items[2]),
        0 <= i < members.len() && members[i].0 == "warnings"@ ==> AdmissionResponse::value(Tree::Object(members)).warnings
            == <Vec<String> as Readable>::value(members[i].1),
        !json::is_there(members, "warnings"@) ==> AdmissionResponse::value(Tree::Object(members)).warnings == <Vec<String> as Readable>::nothing(),
        items.len() > 3 ==> AdmissionResponse::value(Tree::List(items)).warnings == <Vec<String> as Readable>::value(items[3]),
{
    json::a_field_is_read_by_name_or_place::<String>(members, items, i, "uid"@, 0);
    json::a_field_is_read_by_name_or_place::<bool>(members, items, i, "allowed"@, 1);
    json::a_field_is_read_by_name_or_place::<Option<Status>>(members, items, i, "status"@, 2);
    json::a_field_is_read_by_name_or_place::<Vec<String>>(members, items, i, "warnings"@, 3);
}

/// An admission response is read wherever each of its members can be and none that it needs is missing.
pub proof fn an_admission_response_is_read_where_its_members_are(members: Seq<(Seq<char>, Tree)>)
    requires
        json::are_distinct(members),
        forall|j: int|
            0 <= j < members.len() && (#[trigger] members[j]).0 == "uid"@ ==> String::fault(members[j].1) is None,
        forall|j: int|
            0 <= j < members.len() && (#[trigger] members[j]).0 == "allowed"@ ==> bool::fault(members[j].1) is None,
        forall|j: int|
            0 <= j < members.len() && (#[trigger] members[j]).0 == "status"@ ==> <Option<Status> as Readable>::fault(members[j].1) is None,
        forall|j: int|
            0 <= j < members.len() && (#[trigger] members[j]).0 == "warnings"@ ==> <Vec<String> as Readable>::fault(members[j].1) is None,
        json::is_there(members, "uid"@),
        json::is_there(members, "allowed"@),
    ensures
        AdmissionResponse::fault(Tree::Object(members)) is None,
{
    assert forall|j: int| 0 <= j < members.len() implies AdmissionResponse::member_fault(
        (#[trigger] members[j]).0,
        members[j].1,
    ) is None by {}
    json::members_are_read_where_each_is::<AdmissionResponse>(members);
    assert(json::field_fault::<String>(Tree::Object(members), "uid"@, 0) is None) by {
        json::a_member_is_found_by_name(members, "uid"@);
        if let Some(v) = json::lookup(members, "uid"@) {
            let j = choose|j: int| 0 <= j < members.len() && members[j] == ("uid"@, v);
            assert(members[j].0 == "uid"@);
        }
    }
    assert(json::field_fault::<bool>(Tree::Object(members), "allowed"@, 1) is None) by {
        json::a_member_is_found_by_name(members, "allowed"@);
        if let Some(v) = json::lookup(members, "allowed"@) {
            let j = choose|j: int| 0 <= j < members.len() && members[j] == ("allowed"@, v);
            assert(members[j].0 == "allowed"@);
        }
    }
    assert(json::field_fault::<Option<Status>>(Tree::Object(members), "status"@, 2) is None) by {
        json::a_member_is_found_by_name(members, "status"@);
        if let Some(v) = json::lookup(members, "status"@) {
            let j = choose|j: int| 0 <= j < members.len() && members[j] == ("status"@, v);
            assert(members[j].0 == "status"@);
        }
    }
    assert(json::field_fault::<Vec<String>>(Tree::Object(members), "warnings"@, 3) is None) by {
        json::a_member_is_found_by_name(members, "warnings"@);
        if let Some(v) = json::lookup(members, "warnings"@) {
            let j = choose|j: int| 0 <= j < members.len() && members[j] == ("warnings"@, v);
            assert(members[j].0 == "warnings"@);
        }
    }
    json::a_member_is_found_by_name(members, "uid"@);
    json::a_member_is_found_by_name(members, "allowed"@);
}

/// An admission response is refused for any one member that cannot be read, and where one that it needs is missing.
pub proof fn an_admission_response_is_refused_for_one_member(members: Seq<(Seq<char>, Tree)>, i: int)
    requires
        json::are_distinct(members),
    ensures
        0 <= i < members.len() && members[i].0 == "uid"@ && String::fault(members[i].1) is Some
            ==> AdmissionResponse::fault(Tree::Object(members)) is Some,
        0 <= i < members.len() && members[i].0 == "allowed"@ && bool::fault(members[i].1) is Some
            ==> AdmissionResponse::fault(Tree::Object(members)) is Some,
        0 <= i < members.len() && members[i].0 == "status"@ && <Option<Status> as Readable>::fault(members[i].1) is Some
            ==> AdmissionResponse::fault(Tree::Object(members)) is Some,
        0 <= i < members.len() && members[i].0 == "warnings"@ && <Vec<String> as Readable>::fault(members[i].1) is Some
            ==> AdmissionResponse::fault(Tree::Object(members)) is Some,
        !json::is_there(members, "uid"@) ==> AdmissionResponse::fault(Tree::Object(members)) is Some,
        !json::is_there(members, "allowed"@) ==> AdmissionResponse::fault(Tree::Object(members)) is Some,
{
    json::a_field_is_read_by_name_or_place::<String>(members, Seq::empty(), i, "uid"@, 0);
    json::a_field_is_read_by_name_or_place::<bool>(members, Seq::empty(), i, "allowed"@, 1);
    json::a_field_is_read_by_name_or_place::<Option<Status>>(members, Seq::empty(), i, "status"@, 2);
    json::a_field_is_read_by_name_or_place::<Vec<String>>(members, Seq::empty(), i, "warnings"@, 3);
    json::a_member_is_found_by_name(members, "uid"@);
    json::a_member_is_found_by_name(members, "allowed"@);
}

/// A status is read field by field: each from the member of its name or the item of its place, and left
/// empty where there is neither.
pub proof fn a_status_is_read_field_by_field(
    members: Seq<(Seq<char>, Tree)>,
    items: Seq<Tree>,
    i: int,
)
    requires
        json::are_distinct(members),
    ensures
        0 <= i < members.len() && members[i].0 == "code"@ ==> Status::value(Tree::Object(members)).code
            == u16::value(members[i].1),
        !json::is_there(members, "code"@) ==> Status::value(Tree::Object(members)).code == u16::nothing(),
        items.len() > 0 ==> Status::value(Tree::List(items)).code == u16::value(items[0]),
        0 <= i < members.len() && members[i].0 == "message"@ ==> Status::value(Tree::Object(members)).message
            == String::value(members[i].1),
        !json::is_there(members, "message"@) ==> Status::value(Tree::Object(members)).message == String::nothing(),
        items.len() > 1 ==> Status::value(Tree::List(items)).message == String::value(items[1]),
        0 <= i < members.len() && members[i].0 == "details"@ ==> Status::value(Tree::Object(members)).details
            == <Option<Details> as Readable>::value(members[i].1),
        !json::is_there(members, "details"@) ==> Status::value(Tree::Object(members)).details == <Option<Details> as Readable>::nothing(),
        items.len() > 2 ==> Status::value(Tree::List(items)).details == <Option<Details> as Readable>::value(items[2]),
{
    json::a_field_is_read_by_name_or_place::<u16>(members, items, i, "code"@, 0);
    json::a_field_is_read_by_name_or_place::<String>(members, items, i, "message"@, 1);
    json::a_field_is_read_by_name_or_place::<Option<Details>>(members, items, i, "details"@, 2);
}

/// A status is read wherever each of its members can be and none that it needs is missing.
pub proof fn a_status_is_read_where_its_members_are(members: Seq<(Seq<char>, Tree)>)
    requires
        json::are_distinct(members),
        forall|j: int|
            0 <= j < members.len() && (#[trigger] members[j]).0 == "code"@ ==> u16::fault(members[j].1) is None,
        forall|j: int|
            0 <= j < members.len() && (#[trigger] members[j]).0 == "message"@ ==> String::fault(members[j].1) is None,
        forall|j: int|
            0 <= j < members.len() && (#[trigger] members[j]).0 == "details"@ ==> <Option<Details> as Readable>::fault(members[j].1) is None,
        json::is_there(members, "code"@),
        json::is_there(members, "message"@),
    ensures
        Status::fault(Tree::Object(members)) is None,
{
    assert forall|j: int| 0 <= j < members.len() implies Status::member_fault(
        (#[trigger] members[j]).0,
        members[j].1,
    ) is None by {}
    json::members_are_read_where_each_is::<Status>(members);
    assert(json::field_fault::<u16>(Tree::Object(members), "code"@, 0) is None) by {
        json::a_member_is_found_by_name(members, "code"@);
        if let Some(v) = json::lookup(members, "code"@) {
            let j = choose|j: int| 0 <= j < members.len() && members[j] == ("code"@, v);
            assert(members[j].0 == "code"@);
        }
    }
    assert(json::field_fault::<String>(Tree::Object(members), "message"@, 1) is None) by {
        json::a_member_is_found_by_name(members, "message"@);
        if let Some(v) = json::lookup(members, "message"@) {
            let j = choose|j: int| 0 <= j < members.len() && members[j] == ("message"@, v);
            assert(members[j].0 == "message"@);
        }
    }
    assert(json::field_fault::<Option<Details>>(Tree::Object(members), "details"@, 2) is None) by {
        json::a_member_is_found_by_name(members, "details"@);
        if let Some(v) = json::lookup(members, "details"@) {
            let j = choose|j: int| 0 <= j < members.len() && members[j] == ("details"@, v);
            assert(members[j].0 == "details"@);
        }
    }
    json::a_member_is_found_by_name(members, "code"@);
    json::a_member_is_found_by_name(members, "message"@);
}

/// A status is refused for any one member that cannot be read, and where one that it needs is missing.
pub proof fn a_status_is_refused_for_one_member(members: Seq<(Seq<char>, Tree)>, i: int)
    requires
        json::are_distinct(members),
    ensures
        0 <= i < members.len() && members[i].0 == "code"@ && u16::fault(members[i].1) is Some
            ==> Status::fault(Tree::Object(members)) is Some,
        0 <= i < members.len() && members[i].0 == "message"@ && String::fault(members[i].1) is Some
            ==> Status::fault(Tree::Object(members)) is Some,
        0 <= i < members.len() && members[i].0 == "details"@ && <Option<Details> as Readable>::fault(members[i].1) is Some
            ==> Status::fault(Tree::Object(members)) is Some,
        !json::is_there(members, "code"@) ==> Status::fault(Tree::Object(members)) is Some,
        !json::is_there(members, "message"@) ==> Status::fault(Tree::Object(members)) is Some,
{
    json::a_field_is_read_by_name_or_place::<u16>(members, Seq::empty(), i, "code"@, 0);
    json::a_field_is_read_by_name_or_place::<String>(members, Seq::empty(), i, "message"@, 1);
    json::a_field_is_read_by_name_or_place::<Option<Details>>(members, Seq::empty(), i, "details"@, 2);
    json::a_member_is_found_by_name(members, "code"@);
    json::a_member_is_found_by_name(members, "message"@);
}

/// A details is read field by field: each from the member of its name or the item of its place, and left
/// empty where there is neither.
pub proof fn a_details_is_read_field_by_field(
    members: Seq<(Seq<char>, Tree)>,
    items: Seq<Tree>,
    i: int,
)
    requires
        json::are_distinct(members),
    ensures
        0 <= i < members.len() && members[i].0 == "causes"@ ==> Details::value(Tree::Object(members)).causes
            == <Vec<Cause> as Readable>::value(members[i].1),
        !json::is_there(members, "causes"@) ==> Details::value(Tree::Object(members)).causes == <Vec<Cause> as Readable>::nothing(),
        items.len() > 0 ==> Details::value(Tree::List(items)).causes == <Vec<Cause> as Readable>::value(items[0]),
{
    json::a_field_is_read_by_name_or_place::<Vec<Cause>>(members, items, i, "causes"@, 0);
}

/// A details is read wherever each of its members can be.
pub proof fn a_details_is_read_where_its_members_are(members: Seq<(Seq<char>, Tree)>)
    requires
        json::are_distinct(members),
        forall|j: int|
            0 <= j < members.len() && (#[trigger] members[j]).0 == "causes"@ ==> <Vec<Cause> as Readable>::fault(members[j].1) is None,
    ensures
        Details::fault(Tree::Object(members)) is None,
{
    assert forall|j: int| 0 <= j < members.len() implies Details::member_fault(
        (#[trigger] members[j]).0,
        members[j].1,
    ) is None by {}
    json::members_are_read_where_each_is::<Details>(members);
    assert(json::field_fault::<Vec<Cause>>(Tree::Object(members), "causes"@, 0) is None) by {
        json::a_member_is_found_by_name(members, "causes"@);
        if let Some(v) = json::lookup(members, "causes"@) {
            let j = choose|j: int| 0 <= j < members.len() && members[j] == ("causes"@, v);
            assert(members[j].0 == "causes"@);
        }
    }
}

/// A details is refused for any one member that cannot be read.
pub proof fn a_details_is_refused_for_one_member(members: Seq<(Seq<char>, Tree)>, i: int)
    requires
        json::are_distinct(members),
    ensures
        0 <= i < members.len() && members[i].0 == "causes"@ && <Vec<Cause> as Readable>::fault(members[i].1) is Some
            ==> Details::fault(Tree::Object(members)) is Some,
{
    json::a_field_is_read_by_name_or_place::<Vec<Cause>>(members, Seq::empty(), i, "causes"@, 0);
}

/// A cause is read field by field: each from the member of its name or the item of its place, and left
/// empty where there is neither.
pub proof fn a_cause_is_read_field_by_field(
    members: Seq<(Seq<char>, Tree)>,
    items: Seq<Tree>,
    i: int,
)
    requires
        json::are_distinct(members),
    ensures
        0 <= i < members.len() && members[i].0 == "reason"@ ==> Cause::value(Tree::Object(members)).reason
            == String::value(members[i].1),
        !json::is_there(members, "reason"@) ==> Cause::value(Tree::Object(members)).reason == String::nothing(),
        items.len() > 0 ==> Cause::value(Tree::List(items)).reason == String::value(items[0]),
        0 <= i < members.len() && members[i].0 == "message"@ ==> Cause::value(Tree::Object(members)).message
            == String::value(members[i].1),
        !json::is_there(members, "message"@) ==> Cause::value(Tree::Object(members)).message == String::nothing(),
        items.len() > 1 ==> Cause::value(Tree::List(items)).message == String::value(items[1]),
        0 <= i < members.len() && members[i].0 == "field"@ ==> Cause::value(Tree::Object(members)).field
            == String::value(members[i].1),
        !json::is_there(members, "field"@) ==> Cause::value(Tree::Object(members)).field == String::nothing(),
        items.len() > 2 ==> Cause::value(Tree::List(items)).field == String::value(items[2]),
        0 <= i < members.len() && members[i].0 == "grantAllows"@ ==> Cause::value(Tree::Object(members)).grant_allows
            == <Vec<String> as Readable>::value(members[i].1),
        !json::is_there(members, "grantAllows"@) ==> Cause::value(Tree::Object(members)).grant_allows == <Vec<String> as Readable>::nothing(),
        items.len() > 3 ==> Cause::value(Tree::List(items)).grant_allows == <Vec<String> as Readable>::value(items[3]),
{
    json::a_field_is_read_by_name_or_place::<String>(members, items, i, "reason"@, 0);
    json::a_field_is_read_by_name_or_place::<String>(members, items, i, "message"@, 1);
    json::a_field_is_read_by_name_or_place::<String>(members, items, i, "field"@, 2);
    json::a_field_is_read_by_name_or_place::<Vec<String>>(members, items, i, "grantAllows"@, 3);
}

/// A cause is read wherever each of its members can be and none that it needs is missing.
pub proof fn a_cause_is_read_where_its_members_are(members: Seq<(Seq<char>, Tree)>)
    requires
        json::are_distinct(members),
        forall|j: int|
            0 <= j < members.len() && (#[trigger] members[j]).0 == "reason"@ ==> String::fault(members[j].1) is None,
        forall|j: int|
            0 <= j < members.len() && (#[trigger] members[j]).0 == "message"@ ==> String::fault(members[j].1) is None,
        forall|j: int|
            0 <= j < members.len() && (#[trigger] members[j]).0 == "field"@ ==> String::fault(members[j].1) is None,
        forall|j: int|
            0 <= j < members.len() && (#[trigger] members[j]).0 == "grantAllows"@ ==> <Vec<String> as Readable>::fault(members[j].1) is None,
        json::is_there(members, "reason"@),
        json::is_there(members, "message"@),
        json::is_there(members, "field"@),
    ensures
        Cause::fault(Tree::Object(members)) is None,
{
    assert forall|j: int| 0 <= j < members.len() implies Cause::member_fault(
        (#[trigger] members[j]).0,
        members[j].1,
    ) is None by {}
    json::members_are_read_where_each_is::<Cause>(members);
    assert(json::field_fault::<String>(Tree::Object(members), "reason"@, 0) is None) by {
        json::a_member_is_found_by_name(members, "reason"@);
        if let Some(v) = json::lookup(members, "reason"@) {
            let j = choose|j: int| 0 <= j < members.len() && members[j] == ("reason"@, v);
            assert(members[j].0 == "reason"@);
        }
    }
    assert(json::field_fault::<String>(Tree::Object(members), "message"@, 1) is None) by {
        json::a_member_is_found_by_name(members, "message"@);
        if let Some(v) = json::lookup(members, "message"@) {
            let j = choose|j: int| 0 <= j < members.len() && members[j] == ("message"@, v);
            assert(members[j].0 == "message"@);
        }
    }
    assert(json::field_fault::<String>(Tree::Object(members), "field"@, 2) is None) by {
        json::a_member_is_found_by_name(members, "field"@);
        if let Some(v) = json::lookup(members, "field"@) {
            let j = choose|j: int| 0 <= j < members.len() && members[j] == ("field"@, v);
            assert(members[j].0 == "field"@);
        }
    }
    assert(json::field_fault::<Vec<String>>(Tree::Object(members), "grantAllows"@, 3) is None) by {
        json::a_member_is_found_by_name(members, "grantAllows"@);
        if let Some(v) = json::lookup(members, "grantAllows"@) {
            let j = choose|j: int| 0 <= j < members.len() && members[j] == ("grantAllows"@, v);
            assert(members[j].0 == "grantAllows"@);
        }
    }
    json::a_member_is_found_by_name(members, "reason"@);
    json::a_member_is_found_by_name(members, "message"@);
    json::a_member_is_found_by_name(members, "field"@);
}

/// A cause is refused for any one member that cannot be read, and where one that it needs is missing.
pub proof fn a_cause_is_refused_for_one_member(members: Seq<(Seq<char>, Tree)>, i: int)
    requires
        json::are_distinct(members),
    ensures
        0 <= i < members.len() && members[i].0 == "reason"@ && String::fault(members[i].1) is Some
            ==> Cause::fault(Tree::Object(members)) is Some,
        0 <= i < members.len() && members[i].0 == "message"@ && String::fault(members[i].1) is Some
            ==> Cause::fault(Tree::Object(members)) is Some,
        0 <= i < members.len() && members[i].0 == "field"@ && String::fault(members[i].1) is Some
            ==> Cause::fault(Tree::Object(members)) is Some,
        0 <= i < members.len() && members[i].0 == "grantAllows"@ && <Vec<String> as Readable>::fault(members[i].1) is Some
            ==> Cause::fault(Tree::Object(members)) is Some,
        !json::is_there(members, "reason"@) ==> Cause::fault(Tree::Object(members)) is Some,
        !json::is_there(members, "message"@) ==> Cause::fault(Tree::Object(members)) is Some,
        !json::is_there(members, "field"@) ==> Cause::fault(Tree::Object(members)) is Some,
{
    json::a_field_is_read_by_name_or_place::<String>(members, Seq::empty(), i, "reason"@, 0);
    json::a_field_is_read_by_name_or_place::<String>(members, Seq::empty(), i, "message"@, 1);
    json::a_field_is_read_by_name_or_place::<String>(members, Seq::empty(), i, "field"@, 2);
    json::a_field_is_read_by_name_or_place::<Vec<String>>(members, Seq::empty(), i, "grantAllows"@, 3);
    json::a_member_is_found_by_name(members, "reason"@);
    json::a_member_is_found_by_name(members, "message"@);
    json::a_member_is_found_by_name(members, "field"@);
}

/// Every answer is a review of the version that was asked in, with the uid that was asked under and no
/// request of its own.
pub proof fn an_answer_is_a_review(uid: Seq<char>, why: Seq<char>, d: DecisionModel)
    ensures
        ({
            let is_answer = |r: AdmissionReviewModel|
                r.api_version == "admission.k8s.io/v1"@ && r.kind == "AdmissionReview"@
                    && r.request is None && (r.response matches Some(a) && a.uid == uid);
            &&& is_answer(response_to(uid, d))
            &&& is_answer(undecided(uid, why))
            &&& is_answer(refused(uid, why))
            &&& is_answer(allowed_with(uid, why))
        }),
{
}

/// A refusal is forbidden, with a reason; not to have decided is an error of the wall's own; and
/// neither allows. To allow carries the note as a warning.
pub proof fn an_answer_is_told_by_its_code(uid: Seq<char>, why: Seq<char>)
    ensures
        refused(uid, why).response matches Some(r) && !r.allowed && (r.status matches Some(s) && s.code
            == 403 && s.message == why),
        undecided(uid, why).response matches Some(r) && !r.allowed && (r.status matches Some(s)
            && s.code == 500),
        allowed_with(uid, why).response matches Some(r) && r.allowed && r.status is None && r.warnings
            == seq![why],
{
}

/// An answer to a denial names the first reason and its wall, and gives each reason as a cause: the
/// wall, the effect and why, the field, and what the grant allows. An admission passes on what was not
/// checked and what cannot be enforced.
pub proof fn an_answer_gives_the_reasons(uid: Seq<char>, d: DecisionModel, i: int)
    ensures
        d.verdict matches VerdictModel::Deny { first, all } ==> {
            let s = response_to(uid, d).response->0.status->0;
            let causes = s.details->0.causes;
            &&& s.message == first.effect + " refused by the "@ + first.wall.word() + " wall: "@
                + first.reason
            &&& causes.len() == all.len()
            &&& 0 <= i < all.len() ==> causes[i].reason == all[i].wall.word() && causes[i].message
                == all[i].effect + ": "@ + all[i].reason && causes[i].field == all[i].source
                && causes[i].grant_allows == all[i].grant_allows
        },
        d.verdict is Admit ==> response_to(uid, d).response->0.warnings == d.unchecked
            + d.unenforceable,
{
}

/// A request is of the pod that it names, or else of the one that its object names, or is to be named
/// after; and of the namespace and uid that it carries.
pub proof fn a_request_is_of_the_pod_it_names(q: AdmissionRequestModel, n: Seq<char>)
    ensures
        q.who().uid == q.uid,
        q.who().namespace == q.namespace,
        q.name.len() > 0 ==> q.who().name == q.name,
        q.name.len() == 0 && q.object.at("metadata"@, "name"@) == Some(Tree::Text(n)) ==> q.who().name
            == n,
        q.name.len() == 0 && q.object.at("metadata"@, "name"@) is None && q.object.at(
            "metadata"@,
            "generateName"@,
        ) == Some(Tree::Text(n)) ==> q.who().name == n,
        q.name.len() == 0 && q.object.at("metadata"@, "name"@) is None && q.object.at(
            "metadata"@,
            "generateName"@,
        ) is None ==> q.who().name.len() == 0,
{
}

/// A document without a `request` is not answered.
pub proof fn a_review_needs_a_request(t: Tree, r: AdmissionReviewModel)
    ensures
        t.member("request"@) is None ==> review_of(t) == Err::<AdmissionReviewModel, ReviewErrorModel>(
            ReviewErrorModel::NotARequest,
        ),
        t.member("request"@) is Some && AdmissionReview::fault(t) is None ==> review_of(t) == Ok::<
            AdmissionReviewModel,
            ReviewErrorModel,
        >(AdmissionReview::value(t)),
        r.request is None ==> r.asked() is Err,
        r.request matches Some(q) ==> r.asked() == Ok::<AdmissionRequestModel, ReviewErrorModel>(q),
{
}

/// A review is written under the names that the API server reads it by, and a part that it does not
/// have is left out.
pub proof fn a_review_is_written_under_its_names(v: AdmissionReviewModel)
    ensures
        AdmissionReview::tree(v).member("apiVersion"@) == Some(Tree::Text(v.api_version)),
        AdmissionReview::tree(v).member("kind"@) == Some(Tree::Text(v.kind)),
        AdmissionReview::tree(v).member("request"@) == (match v.request {
            Some(q) => Some(AdmissionRequest::tree(q)),
            None => None,
        }),
        AdmissionReview::tree(v).member("response"@) == (match v.response {
            Some(r) => Some(AdmissionResponse::tree(r)),
            None => None,
        }),
{
    let all = AdmissionReview::tree(v)->Object_0;
    reveal_strlit("apiVersion");
    reveal_strlit("kind");
    reveal_strlit("request");
    reveal_strlit("response");
    assert("apiVersion"@.len() != "kind"@.len());
    assert("apiVersion"@.len() != "request"@.len());
    assert("apiVersion"@.len() != "response"@.len());
    assert("kind"@.len() != "request"@.len());
    assert("kind"@.len() != "response"@.len());
    assert("request"@.len() != "response"@.len());
    assert(all[0].0 == "apiVersion"@);
    json::a_first_member_is_found(all, 0);
    assert(all[1].0 == "kind"@);
    json::a_first_member_is_found(all, 1);
    json::a_member_is_found_by_name(all, "request"@);
    json::a_member_is_found_by_name(all, "response"@);
    if v.request is Some {
        assert(all[2].0 == "request"@);
        json::a_first_member_is_found(all, 2);
        if v.response is Some {
            assert(all[3].0 == "response"@);
            json::a_first_member_is_found(all, 3);
        } else {
            assert(all.len() == 3);
        }
    } else if v.response is Some {
        assert(all[2].0 == "response"@);
        assert(all.len() == 3);
        json::a_first_member_is_found(all, 2);
    } else {
        assert(all.len() == 2);
    }
}

/// A response is written under the names that the API server reads it by.
pub proof fn a_response_is_written_under_its_names(v: AdmissionResponseModel)
    ensures
        AdmissionResponse::tree(v).member("uid"@) == Some(Tree::Text(v.uid)),
        AdmissionResponse::tree(v).member("allowed"@) == Some(Tree::Bool(v.allowed)),
        AdmissionResponse::tree(v).member("status"@) == (match v.status {
            Some(s) => Some(Status::tree(s)),
            None => None,
        }),
        AdmissionResponse::tree(v).member("warnings"@) == (if v.warnings.len() > 0 {
            Some(<Vec<String> as Writable>::tree(v.warnings))
        } else {
            None
        }),
{
    let all = AdmissionResponse::tree(v)->Object_0;
    reveal_strlit("uid");
    reveal_strlit("allowed");
    reveal_strlit("status");
    reveal_strlit("warnings");
    assert("uid"@.len() != "allowed"@.len());
    assert("uid"@.len() != "status"@.len());
    assert("uid"@.len() != "warnings"@.len());
    assert("allowed"@.len() != "status"@.len());
    assert("allowed"@.len() != "warnings"@.len());
    assert("status"@.len() != "warnings"@.len());
    assert(all[0].0 == "uid"@);
    json::a_first_member_is_found(all, 0);
    assert(all[1].0 == "allowed"@);
    json::a_first_member_is_found(all, 1);
    json::a_member_is_found_by_name(all, "status"@);
    json::a_member_is_found_by_name(all, "warnings"@);
    if v.status is Some {
        assert(all[2].0 == "status"@);
        json::a_first_member_is_found(all, 2);
        if v.warnings.len() > 0 {
            assert(all[3].0 == "warnings"@);
            json::a_first_member_is_found(all, 3);
        } else {
            assert(all.len() == 3);
        }
    } else if v.warnings.len() > 0 {
        assert(all[2].0 == "warnings"@);
        assert(all.len() == 3);
        json::a_first_member_is_found(all, 2);
    } else {
        assert(all.len() == 2);
    }
}

/// A status is written under the names that the API server reads it by.
pub proof fn a_status_is_written_under_its_names(v: StatusModel)
    ensures
        Status::tree(v).member("code"@) == Some(<u16 as Writable>::tree(v.code)),
        Status::tree(v).member("message"@) == Some(Tree::Text(v.message)),
        Status::tree(v).member("details"@) == (match v.details {
            Some(d) => Some(Details::tree(d)),
            None => None,
        }),
{
    let all = Status::tree(v)->Object_0;
    reveal_strlit("code");
    reveal_strlit("message");
    reveal_strlit("details");
    assert("code"@.len() != "message"@.len());
    assert("code"@.len() != "details"@.len());
    assert("message"@[0] != "details"@[0]);
    assert(all[0].0 == "code"@);
    json::a_first_member_is_found(all, 0);
    assert(all[1].0 == "message"@);
    json::a_first_member_is_found(all, 1);
    if v.details is Some {
        assert(all[2].0 == "details"@);
        json::a_first_member_is_found(all, 2);
    } else {
        assert(all.len() == 2);
        json::a_member_is_found_by_name(all, "details"@);
    }
}

/// A cause is written under the names that the API server reads it by.
pub proof fn a_cause_is_written_under_its_names(v: CauseModel)
    ensures
        Cause::tree(v).member("reason"@) == Some(Tree::Text(v.reason)),
        Cause::tree(v).member("message"@) == Some(Tree::Text(v.message)),
        Cause::tree(v).member("field"@) == Some(Tree::Text(v.field)),
        Cause::tree(v).member("grantAllows"@) == (if v.grant_allows.len() > 0 {
            Some(<Vec<String> as Writable>::tree(v.grant_allows))
        } else {
            None
        }),
{
    let all = Cause::tree(v)->Object_0;
    reveal_strlit("reason");
    reveal_strlit("message");
    reveal_strlit("field");
    reveal_strlit("grantAllows");
    assert("reason"@.len() != "message"@.len());
    assert("reason"@.len() != "field"@.len());
    assert("reason"@.len() != "grantAllows"@.len());
    assert("message"@.len() != "field"@.len());
    assert("message"@.len() != "grantAllows"@.len());
    assert("field"@.len() != "grantAllows"@.len());
    assert(all[0].0 == "reason"@);
    json::a_first_member_is_found(all, 0);
    assert(all[1].0 == "message"@);
    json::a_first_member_is_found(all, 1);
    assert(all[2].0 == "field"@);
    json::a_first_member_is_found(all, 2);
    if v.grant_allows.len() > 0 {
        assert(all[3].0 == "grantAllows"@);
        json::a_first_member_is_found(all, 3);
    } else {
        assert(all.len() == 3);
        json::a_member_is_found_by_name(all, "grantAllows"@);
    }
}

} // verus!
