use crate::error::RunError;
use vstd::prelude::*;
use vstd::string::StringExecFns;

verus! {

/// The registry's token endpoint.
pub const AUTH_URL: &'static str = "https://auth.docker.io/token";

/// The service that tokens are issued for.
pub const SERVICE: &'static str = "registry.docker.io";

/// The base of the registry's v2 API.
pub const REGISTRY_URL: &'static str = "https://registry.hub.docker.com/v2/";

/// The tag used where none is given.
pub const DEFAULT_TAG: &'static str = "latest";

/// The URL that asks for a pull token for `library/<image>`.
pub open spec fn auth_url_text(image: Seq<char>) -> Seq<char> {
    AUTH_URL@ + "?service="@ + SERVICE@ + "&scope=repository:library/"@ + image + ":pull"@
}

/// The URL of the manifest of `library/<image>` at `tag`.
pub open spec fn manifest_url_text(image: Seq<char>, tag: Seq<char>) -> Seq<char> {
    REGISTRY_URL@ + "library/"@ + image + "/manifests/"@ + tag
}

/// The URL of the blob `digest` of `library/<image>`.
pub open spec fn blob_url_text(image: Seq<char>, digest: Seq<char>) -> Seq<char> {
    REGISTRY_URL@ + "library/"@ + image + "/blobs/"@ + digest
}

/// The URL that asks for a pull token for `library/<image>`.
pub fn auth_url(image: &str) -> (r: String)
    ensures
        r@ == auth_url_text(image@),
{
    let mut r = AUTH_URL.to_string();
    r.append("?service=");
    r.append(SERVICE);
    r.append("&scope=repository:library/");
    r.append(image);
    r.append(":pull");
    r
}

/// The URL of the manifest of `library/<image>` at `tag`.
pub fn manifest_url(image: &str, tag: &str) -> (r: String)
    ensures
        r@ == manifest_url_text(image@, tag@),
{
    let mut r = REGISTRY_URL.to_string();
    r.append("library/");
    r.append(image);
    r.append("/manifests/");
    r.append(tag);
    r
}

/// The URL of the blob `digest` of `library/<image>`.
pub fn blob_url(image: &str, digest: &str) -> (r: String)
    ensures
        r@ == blob_url_text(image@, digest@),
{
    let mut r = REGISTRY_URL.to_string();
    r.append("library/");
    r.append(image);
    r.append("/blobs/");
    r.append(digest);
    r
}

/// An image: repository name under `library/`, and tag.
#[derive(Debug)]
pub struct ImageReference {
    pub name: String,
    pub tag: String,
}

impl ImageReference {
    /// The image `name` at `tag`, or at the default tag.
    pub fn new(name: String, tag: Option<String>) -> (r: ImageReference)
        ensures
            r.name@ == name@,
            r.tag@ == match tag {
                Some(t) => t@,
                None => DEFAULT_TAG@,
            },
    {
        let tag = match tag {
            Some(t) => t,
            None => DEFAULT_TAG.to_string(),
        };
        ImageReference { name, tag }
    }
}

/// One layer of a manifest, named by the digest of its blob.
#[derive(Debug)]
pub struct LayerDescriptor {
    pub digest: String,
}

/// The layers of an image, in the order the registry lists them.
#[derive(Debug)]
pub struct Manifest {
    pub layers: Vec<LayerDescriptor>,
}

/// The digests of the layers of `m`, in order.
pub open spec fn manifest_digests(m: Manifest) -> Seq<Seq<char>> {
    Seq::new(m.layers@.len(), |i: int| m.layers@[i].digest@)
}

/// The three requests of the registry protocol.
#[derive(Debug, Clone, Copy, PartialEq, Eq, Structural)]
pub enum CallKind {
    Token,
    Manifest,
    Blob,
}

/// One GET request to the registry, with the bearer token it carries.
#[derive(Debug)]
pub struct RegistryCall {
    pub kind: CallKind,
    pub url: String,
    pub token: Option<String>,
}

impl RegistryCall {
    /// A request equal to this one.
    pub fn duplicate(&self) -> (r: RegistryCall)
        ensures
            call_view(r) == call_view(*self),
    {
        let token = match &self.token {
            Some(t) => Some(t.clone()),
            None => None,
        };
        RegistryCall { kind: self.kind, url: self.url.clone(), token }
    }
}

/// A request as plain values: kind, URL and bearer token.
pub type CallView = (CallKind, Seq<char>, Option<Seq<char>>);

/// The view of a request.
pub open spec fn call_view(c: RegistryCall) -> CallView {
    (c.kind, c.url@, match c.token {
        Some(t) => Some(t@),
        None => None,
    })
}

/// The `k`-th request of a fetch of `image` at `tag`: the token first, then
/// the manifest, then one blob for each digest in order.
pub open spec fn planned_call(image: Seq<char>, tag: Seq<char>, token: Seq<char>, digests: Seq<Seq<char>>, k: int) -> CallView {
    if k == 0 {
        (CallKind::Token, auth_url_text(image), None)
    } else if k == 1 {
        (CallKind::Manifest, manifest_url_text(image, tag), Some(token))
    } else {
        (CallKind::Blob, blob_url_text(image, digests[k - 2]), Some(token))
    }
}

/// The kind of the `k`-th request of a fetch.
pub open spec fn planned_kind(k: int) -> CallKind {
    if k == 0 {
        CallKind::Token
    } else if k == 1 {
        CallKind::Manifest
    } else {
        CallKind::Blob
    }
}

/// Where a fetch stands.
#[derive(Debug, Clone, Copy, PartialEq, Eq, Structural)]
pub enum FetchStage {
    AwaitToken,
    AwaitManifest,
    AwaitBlob,
    Done,
    Failed,
}

/// The answer to the last request.
#[derive(Debug)]
pub enum FetchReply {
    Token(String),
    Manifest(Manifest),
    Blob(Vec<u8>),
    /// The request failed or its answer could not be read.
    Error,
}

/// What to do next.
#[derive(Debug)]
pub enum FetchAction {
    /// Send this request and hand its answer to `step`.
    Call(RegistryCall),
    /// All blobs are in `blobs`, in manifest order.
    Finished,
    /// The fetch stopped on this error; nothing more is sent.
    Abort(RunError),
}

/// The error that a failed request of `stage` stops a fetch with.
pub open spec fn stage_error(stage: FetchStage) -> RunError {
    match stage {
        FetchStage::AwaitToken => RunError::Auth,
        FetchStage::AwaitManifest => RunError::Manifest,
        _ => RunError::Blob,
    }
}

/// Whether `stage` waits for the answer to a request.
pub open spec fn awaiting(stage: FetchStage) -> bool {
    stage == FetchStage::AwaitToken || stage == FetchStage::AwaitManifest || stage
        == FetchStage::AwaitBlob
}

/// Whether `reply` answers the request that `stage` waits for.
pub open spec fn reply_fits(stage: FetchStage, reply: FetchReply) -> bool {
    match reply {
        FetchReply::Token(_) => stage == FetchStage::AwaitToken,
        FetchReply::Manifest(_) => stage == FetchStage::AwaitManifest,
        FetchReply::Blob(_) => stage == FetchStage::AwaitBlob,
        FetchReply::Error => false,
    }
}

/// The retrieval of all layer blobs of one image: one token request, one
/// manifest request, then one blob request per layer, in order, stopping at
/// the first failure.
#[derive(Debug)]
pub struct BlobFetch {
    pub image: String,
    pub tag: String,
    pub stage: FetchStage,
    pub token: String,
    pub digests: Vec<String>,
    pub blobs: Vec<Vec<u8>>,
    /// Every request handed out so far, in order.
    pub issued: Vec<RegistryCall>,
}

impl BlobFetch {
    /// The digests as plain values.
    pub open spec fn digests_view(&self) -> Seq<Seq<char>> {
        Seq::new(self.digests@.len(), |i: int| self.digests@[i]@)
    }

    /// The requests handed out so far, as plain values.
    pub open spec fn issued_view(&self) -> Seq<CallView> {
        Seq::new(self.issued@.len(), |i: int| call_view(self.issued@[i]))
    }

    /// The requests handed out are the first ones of the plan, as many as the
    /// stage says; the blobs are those of the layers asked for so far.
    pub open spec fn wf(&self) -> bool {
        &&& forall|k: int|
            0 <= k < self.issued@.len() ==> #[trigger] self.issued_view()[k] == planned_call(
                self.image@,
                self.tag@,
                self.token@,
                self.digests_view(),
                k,
            )
        &&& match self.stage {
            FetchStage::AwaitToken => self.issued@.len() == 1 && self.blobs@.len() == 0,
            FetchStage::AwaitManifest => self.issued@.len() == 2 && self.blobs@.len() == 0,
            FetchStage::AwaitBlob => self.blobs@.len() < self.digests@.len() && self.issued@.len()
                == self.blobs@.len() + 3,
            FetchStage::Done => self.blobs@.len() == self.digests@.len() && self.issued@.len()
                == self.digests@.len() + 2,
            FetchStage::Failed => 1 <= self.issued@.len() <= self.digests@.len() + 2,
        }
    }

    /// Starts a fetch of `image` at `tag`: the first request asks for a token.
    pub fn start(image: &str, tag: &str) -> (r: (BlobFetch, FetchAction))
        ensures
            r.0.wf(),
            r.0.image@ == image@,
            r.0.tag@ == tag@,
            r.0.stage == FetchStage::AwaitToken,
            r.0.issued@.len() == 1,
            r.1 matches FetchAction::Call(c) && call_view(c) == (CallKind::Token, auth_url_text(image@), None::<Seq<char>>),
    {
        let call = RegistryCall { kind: CallKind::Token, url: auth_url(image), token: None };
        let mut issued = Vec::new();
        issued.push(call.duplicate());
        let f = BlobFetch {
            image: image.to_string(),
            tag: tag.to_string(),
            stage: FetchStage::AwaitToken,
            token: String::new(),
            digests: Vec::new(),
            blobs: Vec::new(),
            issued,
        };
        assert(f.issued_view()[0] == call_view(call));
        (f, FetchAction::Call(call))
    }

    /// Hands out `call` after recording it.
    fn issue(&mut self, call: RegistryCall) -> (r: FetchAction)
        ensures
            final(self).issued@ == old(self).issued@.push(call),
            final(self).issued_view() == old(self).issued_view().push(call_view(call)),
            final(self).image == old(self).image,
            final(self).tag == old(self).tag,
            final(self).stage == old(self).stage,
            final(self).token == old(self).token,
            final(self).digests == old(self).digests,
            final(self).blobs == old(self).blobs,
            r matches FetchAction::Call(c) && call_view(c) == call_view(call),
    {
        let copy = call.duplicate();
        self.issued.push(call);
        assert(self.issued_view() =~= old(self).issued_view().push(call_view(copy)));
        FetchAction::Call(copy)
    }

    /// The request for the blob of layer `i`.
    fn blob_call(&self, i: usize) -> (r: RegistryCall)
        requires
            i < self.digests@.len(),
        ensures
            call_view(r) == (CallKind::Blob, blob_url_text(self.image@, self.digests_view()[i as int]), Some(self.token@)),
    {
        RegistryCall {
            kind: CallKind::Blob,
            url: blob_url(self.image.as_str(), self.digests[i].as_str()),
            token: Some(self.token.clone()),
        }
    }

    /// Takes the answer to the last request and says what to do next.
    /// A failed request, or an answer of the wrong kind, stops the fetch with
    /// the error of its stage; a stopped or finished fetch asks for nothing more.
    pub fn step(&mut self, reply: FetchReply) -> (r: FetchAction)
        requires
            old(self).wf(),
        ensures
            final(self).wf(),
            final(self).image == old(self).image,
            final(self).tag == old(self).tag,
            !awaiting(old(self).stage) ==> {
                &&& final(self).issued_view() == old(self).issued_view()
                &&& final(self).stage == old(self).stage
                &&& final(self).blobs == old(self).blobs
                &&& !(r is Call)
            },
            awaiting(old(self).stage) && !reply_fits(old(self).stage, reply) ==> {
                &&& final(self).stage == FetchStage::Failed
                &&& final(self).issued_view() == old(self).issued_view()
                &&& final(self).blobs == old(self).blobs
                &&& r == FetchAction::Abort(stage_error(old(self).stage))
            },
            old(self).stage == FetchStage::AwaitToken ==> (reply matches FetchReply::Token(t) ==> {
                &&& final(self).stage == FetchStage::AwaitManifest
                &&& final(self).token@ == t@
                &&& final(self).issued_view() == old(self).issued_view().push(
                    (CallKind::Manifest, manifest_url_text(old(self).image@, old(self).tag@), Some(t@)),
                )
                &&& r matches FetchAction::Call(c) && call_view(c) == final(self).issued_view().last()
            }),
            old(self).stage == FetchStage::AwaitManifest ==> (reply matches FetchReply::Manifest(m) ==> {
                &&& final(self).digests_view() == manifest_digests(m)
                &&& final(self).token == old(self).token
                &&& final(self).blobs@.len() == 0
                &&& if m.layers@.len() == 0 {
                    &&& final(self).stage == FetchStage::Done
                    &&& final(self).issued_view() == old(self).issued_view()
                    &&& r is Finished
                } else {
                    &&& final(self).stage == FetchStage::AwaitBlob
                    &&& final(self).issued_view() == old(self).issued_view().push(
                        (CallKind::Blob, blob_url_text(old(self).image@, manifest_digests(m)[0]), Some(old(self).token@)),
                    )
                    &&& r matches FetchAction::Call(c) && call_view(c) == final(self).issued_view().last()
                }
            }),
            old(self).stage == FetchStage::AwaitBlob ==> (reply matches FetchReply::Blob(b) ==> {
                let n = old(self).blobs@.len() + 1;
                &&& final(self).blobs@ == old(self).blobs@.push(b)
                &&& final(self).digests == old(self).digests
                &&& final(self).token == old(self).token
                &&& if n == old(self).digests@.len() {
                    &&& final(self).stage == FetchStage::Done
                    &&& final(self).issued_view() == old(self).issued_view()
                    &&& r is Finished
                } else {
                    &&& final(self).stage == FetchStage::AwaitBlob
                    &&& final(self).issued_view() == old(self).issued_view().push(
                        (CallKind::Blob, blob_url_text(old(self).image@, old(self).digests_view()[n as int]), Some(old(self).token@)),
                    )
                    &&& r matches FetchAction::Call(c) && call_view(c) == final(self).issued_view().last()
                }
            }),
    {
        let ghost old_issued = self.issued_view();
        match self.stage {
            FetchStage::Done => {
                return FetchAction::Finished;
            },
            FetchStage::Failed => {
                return FetchAction::Abort(RunError::Blob);
            },
            _ => {},
        }
        match (self.stage, reply) {
            (FetchStage::AwaitToken, FetchReply::Token(t)) => {
                self.token = t;
                self.stage = FetchStage::AwaitManifest;
                let call = RegistryCall {
                    kind: CallKind::Manifest,
                    url: manifest_url(self.image.as_str(), self.tag.as_str()),
                    token: Some(self.token.clone()),
                };
                let r = self.issue(call);
                assert forall|k: int| 0 <= k < self.issued@.len() implies #[trigger] self.issued_view()[k] == planned_call(
                    self.image@, self.tag@, self.token@, self.digests_view(), k) by {
                    if k == 0 {
                        assert(self.issued_view()[k] == old_issued[k]);
                    }
                }
                r
            },
            (FetchStage::AwaitManifest, FetchReply::Manifest(m)) => {
                let mut digests: Vec<String> = Vec::new();
                let mut i: usize = 0;
                while i < m.layers.len()
                    invariant
                        i <= m.layers@.len(),
                        digests@.len() == i,
                        forall|j: int| 0 <= j < i ==> #[trigger] digests@[j]@ == m.layers@[j].digest@,
                    decreases m.layers@.len() - i,
                {
                    digests.push(m.layers[i].digest.clone());
                    i = i + 1;
                }
                self.digests = digests;
                assert(self.digests_view() =~= manifest_digests(m));
                assert forall|k: int| 0 <= k < self.issued@.len() implies #[trigger] self.issued_view()[k] == planned_call(
                    self.image@, self.tag@, self.token@, self.digests_view(), k) by {
                    assert(self.issued_view()[k] == old_issued[k]);
                }
                if self.digests.len() == 0 {
                    self.stage = FetchStage::Done;
                    FetchAction::Finished
                } else {
                    self.stage = FetchStage::AwaitBlob;
                    let call = self.blob_call(0);
                    let r = self.issue(call);
                    assert forall|k: int| 0 <= k < self.issued@.len() implies #[trigger] self.issued_view()[k] == planned_call(
                        self.image@, self.tag@, self.token@, self.digests_view(), k) by {
                        if k < 2 {
                            assert(self.issued_view()[k] == old_issued[k]);
                        }
                    }
                    r
                }
            },
            (FetchStage::AwaitBlob, FetchReply::Blob(b)) => {
                self.blobs.push(b);
                let n = self.blobs.len();
                assert forall|k: int| 0 <= k < self.issued@.len() implies #[trigger] self.issued_view()[k] == planned_call(
                    self.image@, self.tag@, self.token@, self.digests_view(), k) by {
                    assert(self.issued_view()[k] == old_issued[k]);
                }
                if n == self.digests.len() {
                    self.stage = FetchStage::Done;
                    FetchAction::Finished
                } else {
                    let call = self.blob_call(n);
                    let r = self.issue(call);
                    assert forall|k: int| 0 <= k < self.issued@.len() implies #[trigger] self.issued_view()[k] == planned_call(
                        self.image@, self.tag@, self.token@, self.digests_view(), k) by {
                        if k < n + 2 {
                            assert(self.issued_view()[k] == old_issued[k]);
                        }
                    }
                    r
                }
            },
            (stage, _) => {
                self.stage = FetchStage::Failed;
                let e = match stage {
                    FetchStage::AwaitToken => RunError::Auth,
                    FetchStage::AwaitManifest => RunError::Manifest,
                    _ => RunError::Blob,
                };
                FetchAction::Abort(e)
            },
        }
    }
}

/// The requests of a fetch come in a fixed order: the token request first,
/// the manifest request second, then one blob request per layer, each for the
/// next digest of the manifest. There are never more than the layers plus
/// two, and a finished fetch has made exactly that many, and holds one blob
/// per layer.
pub proof fn lemma_fetch_requests(f: BlobFetch)
    requires
        f.wf(),
    ensures
        1 <= f.issued@.len() <= f.digests@.len() + 2,
        forall|k: int| 0 <= k < f.issued@.len() ==> (#[trigger] f.issued_view()[k]).0 == planned_kind(k),
        f.issued_view()[0] == (CallKind::Token, auth_url_text(f.image@), None::<Seq<char>>),
        f.issued@.len() >= 2 ==> f.issued_view()[1] == (CallKind::Manifest, manifest_url_text(f.image@, f.tag@), Some(f.token@)),
        forall|j: int|
            0 <= j && j + 2 < f.issued@.len() ==> #[trigger] f.issued_view()[j + 2] == (
                CallKind::Blob,
                blob_url_text(f.image@, f.digests_view()[j]),
                Some(f.token@),
            ),
        f.stage == FetchStage::Done ==> f.issued@.len() == f.digests@.len() + 2 && f.blobs@.len() == f.digests@.len(),
{
    assert forall|k: int| 0 <= k < f.issued@.len() implies (#[trigger] f.issued_view()[k]).0 == planned_kind(k) by {
        assert(f.issued_view()[k] == planned_call(f.image@, f.tag@, f.token@, f.digests_view(), k));
    }
    assert forall|j: int| 0 <= j && j + 2 < f.issued@.len() implies #[trigger] f.issued_view()[j + 2] == (
        CallKind::Blob,
        blob_url_text(f.image@, f.digests_view()[j]),
        Some(f.token@),
    ) by {
        assert(f.issued_view()[j + 2] == planned_call(f.image@, f.tag@, f.token@, f.digests_view(), j + 2));
    }
    assert(f.issued_view()[0] == planned_call(f.image@, f.tag@, f.token@, f.digests_view(), 0));
    if f.issued@.len() >= 2 {
        assert(f.issued_view()[1] == planned_call(f.image@, f.tag@, f.token@, f.digests_view(), 1));
    }
}

} // verus!
