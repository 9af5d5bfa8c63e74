//! The routes of spaces: which request goes where.

use vstd::prelude::*;

verus! {

/// The namespace of the protocol.
pub const PROTO_NS: &'static str = "com.atproto";

/// The namespace of what this server adds, and of the names that requests went by before.
pub const LEGACY_NS: &'static str = "dev.happyview";

/// How a route is asked.
#[derive(Debug, Clone, Copy, PartialEq, Eq, Structural)]
pub enum Method {
    Get,
    Post,
}

/// What answers a request.
#[derive(Debug, Clone, Copy, PartialEq, Eq, Structural)]
pub enum Endpoint {
    GetSpace,
    ListSpaces,
    GetRecord,
    ListRecords,
    GetLatestCommit,
    GetRepo,
    ListRepoOps,
    ListRepos,
    GetDelegationToken,
    GetSpaceCredential,
    CreateRecord,
    PutRecord,
    DeleteRecord,
    ApplyWrites,
    RegisterNotify,
    NotifyWrite,
    NotifySpaceDeleted,
    GetSpaceBlob,
    CreateInvite,
    AcceptInvite,
    RevokeInvite,
    ListInvites,
}

/// One route.
#[derive(Debug)]
pub struct Route {
    pub method: Method,
    pub path: String,
    pub endpoint: Endpoint,
}

/// One route, with its path by its characters.
pub ghost struct RouteView {
    pub method: Method,
    pub path: Seq<char>,
    pub endpoint: Endpoint,
}

impl View for Route {
    type V = RouteView;

    open spec fn view(&self) -> RouteView {
        RouteView { method: self.method, path: self.path@, endpoint: self.endpoint }
    }
}

/// The path of a method of a namespace.
pub open spec fn path_text(ns: Seq<char>, name: Seq<char>) -> Seq<char> {
    "/xrpc/"@ + ns + ".space."@ + name
}

/// A route by its namespace and name.
pub ghost struct Row {
    pub legacy: bool,
    pub name: Seq<char>,
    pub method: Method,
    pub endpoint: Endpoint,
}

pub open spec fn row(legacy: bool, name: Seq<char>, method: Method, endpoint: Endpoint) -> Row {
    Row { legacy, name, method, endpoint }
}

/// The route of a row.
pub open spec fn row_route(r: Row) -> RouteView {
    RouteView {
        method: r.method,
        path: path_text(
            if r.legacy {
                LEGACY_NS@
            } else {
                PROTO_NS@
            },
            r.name,
        ),
        endpoint: r.endpoint,
    }
}

/// All routes: those of the protocol, invitations, which the protocol does not know, and the names
/// that are kept for clients from before.
pub open spec fn rows() -> Seq<Row> {
    seq![
        row(false, "getSpace"@, Method::Get, Endpoint::GetSpace),
        row(false, "listSpaces"@, Method::Get, Endpoint::ListSpaces),
        row(false, "getRecord"@, Method::Get, Endpoint::GetRecord),
        row(false, "listRecords"@, Method::Get, Endpoint::ListRecords),
        row(false, "getLatestCommit"@, Method::Get, Endpoint::GetLatestCommit),
        row(false, "getRepoState"@, Method::Get, Endpoint::GetLatestCommit),
        row(false, "getRepo"@, Method::Get, Endpoint::GetRepo),
        row(false, "listRepoOps"@, Method::Get, Endpoint::ListRepoOps),
        row(false, "listRepos"@, Method::Get, Endpoint::ListRepos),
        row(false, "getDelegationToken"@, Method::Get, Endpoint::GetDelegationToken),
        row(false, "getSpaceCredential"@, Method::Post, Endpoint::GetSpaceCredential),
        row(false, "createRecord"@, Method::Post, Endpoint::CreateRecord),
        row(false, "putRecord"@, Method::Post, Endpoint::PutRecord),
        row(false, "deleteRecord"@, Method::Post, Endpoint::DeleteRecord),
        row(false, "applyWrites"@, Method::Post, Endpoint::ApplyWrites),
        row(false, "registerNotify"@, Method::Post, Endpoint::RegisterNotify),
        row(false, "notifyWrite"@, Method::Post, Endpoint::NotifyWrite),
        row(false, "notifySpaceDeleted"@, Method::Post, Endpoint::NotifySpaceDeleted),
        row(false, "getBlob"@, Method::Get, Endpoint::GetSpaceBlob),
        row(true, "createInvite"@, Method::Post, Endpoint::CreateInvite),
        row(true, "acceptInvite"@, Method::Post, Endpoint::AcceptInvite),
        row(true, "revokeInvite"@, Method::Post, Endpoint::RevokeInvite),
        row(true, "listInvites"@, Method::Get, Endpoint::ListInvites),
        row(true, "getSpace"@, Method::Get, Endpoint::GetSpace),
        row(true, "listSpaces"@, Method::Get, Endpoint::ListSpaces),
        row(true, "getRecord"@, Method::Get, Endpoint::GetRecord),
        row(true, "listRecords"@, Method::Get, Endpoint::ListRecords),
        row(true, "getMemberGrant"@, Method::Get, Endpoint::GetDelegationToken),
        row(true, "getSpaceCredential"@, Method::Post, Endpoint::GetSpaceCredential),
        row(true, "createRecord"@, Method::Post, Endpoint::CreateRecord),
        row(true, "putRecord"@, Method::Post, Endpoint::PutRecord),
        row(true, "deleteRecord"@, Method::Post, Endpoint::DeleteRecord),
        row(true, "applyWrites"@, Method::Post, Endpoint::ApplyWrites),
        row(true, "getBlob"@, Method::Get, Endpoint::GetSpaceBlob),
    ]
}

fn route(ns: &str, name: &str, method: Method, endpoint: Endpoint) -> (r: Route)
    ensures
        r@ == (RouteView { method, path: path_text(ns@, name@), endpoint }),
{
    let mut path = "/xrpc/".to_owned();
    path.append(ns);
    path.append(".space.");
    path.append(name);
    Route { method, path, endpoint }
}

/// Lists all routes.
pub fn space_routes() -> (r: Vec<Route>)
    ensures
        r@.map_values(|x: Route| x@) == rows().map_values(|x: Row| row_route(x)),
{
    let r = vec![
        route(PROTO_NS, "getSpace", Method::Get, Endpoint::GetSpace),
        route(PROTO_NS, "listSpaces", Method::Get, Endpoint::ListSpaces),
        route(PROTO_NS, "getRecord", Method::Get, Endpoint::GetRecord),
        route(PROTO_NS, "listRecords", Method::Get, Endpoint::ListRecords),
        route(PROTO_NS, "getLatestCommit", Method::Get, Endpoint::GetLatestCommit),
        route(PROTO_NS, "getRepoState", Method::Get, Endpoint::GetLatestCommit),
        route(PROTO_NS, "getRepo", Method::Get, Endpoint::GetRepo),
        route(PROTO_NS, "listRepoOps", Method::Get, Endpoint::ListRepoOps),
        route(PROTO_NS, "listRepos", Method::Get, Endpoint::ListRepos),
        route(PROTO_NS, "getDelegationToken", Method::Get, Endpoint::GetDelegationToken),
        route(PROTO_NS, "getSpaceCredential", Method::Post, Endpoint::GetSpaceCredential),
        route(PROTO_NS, "createRecord", Method::Post, Endpoint::CreateRecord),
        route(PROTO_NS, "putRecord", Method::Post, Endpoint::PutRecord),
        route(PROTO_NS, "deleteRecord", Method::Post, Endpoint::DeleteRecord),
        route(PROTO_NS, "applyWrites", Method::Post, Endpoint::ApplyWrites),
        route(PROTO_NS, "registerNotify", Method::Post, Endpoint::RegisterNotify),
        route(PROTO_NS, "notifyWrite", Method::Post, Endpoint::NotifyWrite),
        route(PROTO_NS, "notifySpaceDeleted", Method::Post, Endpoint::NotifySpaceDeleted),
        route(PROTO_NS, "getBlob", Method::Get, Endpoint::GetSpaceBlob),
        route(LEGACY_NS, "createInvite", Method::Post, Endpoint::CreateInvite),
        route(LEGACY_NS, "acceptInvite", Method::Post, Endpoint::AcceptInvite),
        route(LEGACY_NS, "revokeInvite", Method::Post, Endpoint::RevokeInvite),
        route(LEGACY_NS, "listInvites", Method::Get, Endpoint::ListInvites),
        route(LEGACY_NS, "getSpace", Method::Get, Endpoint::GetSpace),
        route(LEGACY_NS, "listSpaces", Method::Get, Endpoint::ListSpaces),
        route(LEGACY_NS, "getRecord", Method::Get, Endpoint::GetRecord),
        route(LEGACY_NS, "listRecords", Method::Get, Endpoint::ListRecords),
        route(LEGACY_NS, "getMemberGrant", Method::Get, Endpoint::GetDelegationToken),
        route(LEGACY_NS, "getSpaceCredential", Method::Post, Endpoint::GetSpaceCredential),
        route(LEGACY_NS, "createRecord", Method::Post, Endpoint::CreateRecord),
        route(LEGACY_NS, "putRecord", Method::Post, Endpoint::PutRecord),
        route(LEGACY_NS, "deleteRecord", Method::Post, Endpoint::DeleteRecord),
        route(LEGACY_NS, "applyWrites", Method::Post, Endpoint::ApplyWrites),
        route(LEGACY_NS, "getBlob", Method::Get, Endpoint::GetSpaceBlob),
    ];
    assert(r@.map_values(|x: Route| x@) =~= rows().map_values(|x: Row| row_route(x)));
    r
}

/// A name of the protocol that is kept under the older namespace leads to the same place, and is
/// asked the same way.
pub proof fn law_aliases_lead_to_the_same_place(i: int, j: int)
    requires
        0 <= i < rows().len(),
        0 <= j < rows().len(),
        rows()[i].name == rows()[j].name,
    ensures
        rows()[i].endpoint == rows()[j].endpoint,
        rows()[i].method == rows()[j].method,
{
    lemma_marks();
    assert(mark(rows()[i]).1 == mark(rows()[j]).1);
}

/// No two routes have one path.
pub proof fn law_paths_are_distinct(i: int, j: int)
    requires
        0 <= i < j < rows().len(),
    ensures
        row_route(rows()[i]).path != row_route(rows()[j]).path,
{
    lemma_marks();
    let a = rows()[i];
    let b = rows()[j];
    assert(mark(a) != mark(b));
    reveal_strlit("/xrpc/");
    reveal_strlit(".space.");
    reveal_strlit("com.atproto");
    reveal_strlit("dev.happyview");
    let p = row_route(a).path;
    let q = row_route(b).path;
    let n: int = if a.legacy {
        26
    } else {
        24
    };
    if p == q {
        assert(p[6] == if a.legacy { 'd' } else { 'c' });
        assert(q[6] == if b.legacy { 'd' } else { 'c' });
        assert(p.skip(n) =~= a.name);
        assert(q.skip(n) =~= b.name);
    }
}

/// What tells the routes apart: the namespace, and of the name its length and two characters.
spec fn mark(r: Row) -> (bool, (nat, char, char)) {
    (r.legacy, (r.name.len(), r.name[0], r.name[6]))
}

proof fn lemma_marks()
    ensures
        forall|i: int, j: int|
            0 <= i < j < rows().len() ==> #[trigger] mark(rows()[i]) != #[trigger] mark(rows()[j]),
        forall|i: int, j: int|
            0 <= i < rows().len() && 0 <= j < rows().len() && (#[trigger] mark(rows()[i])).1 == (
            #[trigger] mark(rows()[j])).1 ==> rows()[i].endpoint == rows()[j].endpoint
                && rows()[i].method == rows()[j].method,
{
    reveal_strlit("getSpace");
    reveal_strlit("listSpaces");
    reveal_strlit("getRecord");
    reveal_strlit("listRecords");
    reveal_strlit("getLatestCommit");
    reveal_strlit("getRepoState");
    reveal_strlit("getRepo");
    reveal_strlit("listRepoOps");
    reveal_strlit("listRepos");
    reveal_strlit("getDelegationToken");
    reveal_strlit("getSpaceCredential");
    reveal_strlit("createRecord");
    reveal_strlit("putRecord");
    reveal_strlit("deleteRecord");
    reveal_strlit("applyWrites");
    reveal_strlit("registerNotify");
    reveal_strlit("notifyWrite");
    reveal_strlit("notifySpaceDeleted");
    reveal_strlit("getBlob");
    reveal_strlit("createInvite");
    reveal_strlit("acceptInvite");
    reveal_strlit("revokeInvite");
    reveal_strlit("listInvites");
    reveal_strlit("getMemberGrant");
    let t = rows();
    assert(mark(t[0]) == (false, (8nat, 'g', 'c')));
    assert(mark(t[1]) == (false, (10nat, 'l', 'a')));
    assert(mark(t[2]) == (false, (9nat, 'g', 'o')));
    assert(mark(t[3]) == (false, (11nat, 'l', 'c')));
    assert(mark(t[4]) == (false, (15nat, 'g', 'e')));
    assert(mark(t[5]) == (false, (12nat, 'g', 'o')));
    assert(mark(t[6]) == (false, (7nat, 'g', 'o')));
    assert(mark(t[7]) == (false, (11nat, 'l', 'p')));
    assert(mark(t[8]) == (false, (9nat, 'l', 'p')));
    assert(mark(t[9]) == (false, (18nat, 'g', 'e')));
    assert(mark(t[10]) == (false, (18nat, 'g', 'c')));
    assert(mark(t[11]) == (false, (12nat, 'c', 'R')));
    assert(mark(t[12]) == (false, (9nat, 'p', 'o')));
    assert(mark(t[13]) == (false, (12nat, 'd', 'R')));
    assert(mark(t[14]) == (false, (11nat, 'a', 'r')));
    assert(mark(t[15]) == (false, (14nat, 'r', 'e')));
    assert(mark(t[16]) == (false, (11nat, 'n', 'W')));
    assert(mark(t[17]) == (false, (18nat, 'n', 'S')));
    assert(mark(t[18]) == (false, (7nat, 'g', 'b')));
    assert(mark(t[19]) == (true, (12nat, 'c', 'I')));
    assert(mark(t[20]) == (true, (12nat, 'a', 'I')));
    assert(mark(t[21]) == (true, (12nat, 'r', 'I')));
    assert(mark(t[22]) == (true, (11nat, 'l', 'v')));
    assert(mark(t[23]) == (true, (8nat, 'g', 'c')));
    assert(mark(t[24]) == (true, (10nat, 'l', 'a')));
    assert(mark(t[25]) == (true, (9nat, 'g', 'o')));
    assert(mark(t[26]) == (true, (11nat, 'l', 'c')));
    assert(mark(t[27]) == (true, (14nat, 'g', 'b')));
    assert(mark(t[28]) == (true, (18nat, 'g', 'c')));
    assert(mark(t[29]) == (true, (12nat, 'c', 'R')));
    assert(mark(t[30]) == (true, (9nat, 'p', 'o')));
    assert(mark(t[31]) == (true, (12nat, 'd', 'R')));
    assert(mark(t[32]) == (true, (11nat, 'a', 'r')));
    assert(mark(t[33]) == (true, (7nat, 'g', 'b')));
}

/// The name that each endpoint goes by in the protocol, or among what this server adds to it.
pub open spec fn own_name(endpoint: Endpoint) -> Seq<char> {
    match endpoint {
        Endpoint::GetSpace => "getSpace"@,
        Endpoint::ListSpaces => "listSpaces"@,
        Endpoint::GetRecord => "getRecord"@,
        Endpoint::ListRecords => "listRecords"@,
        Endpoint::GetLatestCommit => "getLatestCommit"@,
        Endpoint::GetRepo => "getRepo"@,
        Endpoint::ListRepoOps => "listRepoOps"@,
        Endpoint::ListRepos => "listRepos"@,
        Endpoint::GetDelegationToken => "getDelegationToken"@,
        Endpoint::GetSpaceCredential => "getSpaceCredential"@,
        Endpoint::CreateRecord => "createRecord"@,
        Endpoint::PutRecord => "putRecord"@,
        Endpoint::DeleteRecord => "deleteRecord"@,
        Endpoint::ApplyWrites => "applyWrites"@,
        Endpoint::RegisterNotify => "registerNotify"@,
        Endpoint::NotifyWrite => "notifyWrite"@,
        Endpoint::NotifySpaceDeleted => "notifySpaceDeleted"@,
        Endpoint::GetSpaceBlob => "getBlob"@,
        Endpoint::CreateInvite => "createInvite"@,
        Endpoint::AcceptInvite => "acceptInvite"@,
        Endpoint::RevokeInvite => "revokeInvite"@,
        Endpoint::ListInvites => "listInvites"@,
    }
}

/// Whether an endpoint only reads. Everything that writes, issues or announces something has to be posted.
pub open spec fn only_reads(endpoint: Endpoint) -> bool {
    match endpoint {
        Endpoint::GetSpace => true,
        Endpoint::ListSpaces => true,
        Endpoint::GetRecord => true,
        Endpoint::ListRecords => true,
        Endpoint::GetLatestCommit => true,
        Endpoint::GetRepo => true,
        Endpoint::ListRepoOps => true,
        Endpoint::ListRepos => true,
        Endpoint::GetDelegationToken => true,
        Endpoint::GetSpaceBlob => true,
        Endpoint::ListInvites => true,
        _ => false,
    }
}

/// Every route leads to the endpoint that it is named after, and is asked the way that the endpoint has
/// to be. Two routes go by an older name: that for the latest commit, and that for a delegation token.
pub proof fn law_routes_lead_where_they_say(i: int)
    requires
        0 <= i < rows().len(),
    ensures
        ({
            let r = rows()[i];
            &&& r.method is Get <==> only_reads(r.endpoint)
            &&& r.name == own_name(r.endpoint) || (r.endpoint is GetLatestCommit && !r.legacy
                && r.name == "getRepoState"@) || (r.endpoint is GetDelegationToken && r.legacy
                && r.name == "getMemberGrant"@)
        }),
{
}

/// Every endpoint can be reached by its own name: invitations under the namespace of this server, and
/// everything else under that of the protocol.
pub proof fn law_every_endpoint_can_be_reached(endpoint: Endpoint)
    ensures
        exists|i: int|
            0 <= i < rows().len() && (#[trigger] rows()[i]).endpoint == endpoint && rows()[i].name
                == own_name(endpoint) && (rows()[i].legacy <==> endpoint is CreateInvite || endpoint
                is AcceptInvite || endpoint is RevokeInvite || endpoint is ListInvites),
{
    let i: int = match endpoint {
        Endpoint::GetSpace => 0,
        Endpoint::ListSpaces => 1,
        Endpoint::GetRecord => 2,
        Endpoint::ListRecords => 3,
        Endpoint::GetLatestCommit => 4,
        Endpoint::GetRepo => 6,
        Endpoint::ListRepoOps => 7,
        Endpoint::ListRepos => 8,
        Endpoint::GetDelegationToken => 9,
        Endpoint::GetSpaceCredential => 10,
        Endpoint::CreateRecord => 11,
        Endpoint::PutRecord => 12,
        Endpoint::DeleteRecord => 13,
        Endpoint::ApplyWrites => 14,
        Endpoint::RegisterNotify => 15,
        Endpoint::NotifyWrite => 16,
        Endpoint::NotifySpaceDeleted => 17,
        Endpoint::GetSpaceBlob => 18,
        Endpoint::CreateInvite => 19,
        Endpoint::AcceptInvite => 20,
        Endpoint::RevokeInvite => 21,
        Endpoint::ListInvites => 22,
    };
    assert(rows()[i].endpoint == endpoint);
}

/// A route's path is made of its namespace and its name.
pub proof fn law_paths_are_made_of_their_names(r: Row)
    ensures
        row_route(r).method == r.method,
        row_route(r).endpoint == r.endpoint,
        r.legacy ==> row_route(r).path == "/xrpc/"@ + "dev.happyview"@ + ".space."@ + r.name,
        !r.legacy ==> row_route(r).path == "/xrpc/"@ + "com.atproto"@ + ".space."@ + r.name,
{
}

} // verus!
