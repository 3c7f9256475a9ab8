//! The model registry: versions of models by name, their lifecycle, which
//! version of each kind is deployed, and checksums of model data.
use vstd::prelude::*;
use sha2::Digest;
use crate::clock;
use crate::ids::new_v4;
use crate::text::{byte_hex, concat_map, copy, owned, str_eq};

verus! {

#[derive(PartialEq, Eq, Structural, Clone, Copy, Debug, Hash)]
pub enum ModelType {
    AnomalyDetection,
    PredictiveFailover,
    EncryptedDpi,
    TrafficForecasting,
    QosOptimization,
}

#[derive(PartialEq, Eq, Structural, Clone, Copy, Debug)]
pub enum ModelStatus {
    Training,
    Validated,
    Deployed,
    Archived,
    Failed,
}

/// The SHA-256 digest of the data.
pub uninterp spec fn sha256_of(data: Seq<u8>) -> Seq<u8>;

/// Hashes the data with `sha2::Sha256::digest`.  The digest depends on the
/// data alone and is 32 bytes long; which bytes it holds is named here, not
/// described.
#[verifier::external_body]
fn sha256(data: &[u8]) -> (d: Vec<u8>)
    ensures
        d@ == sha256_of(data@),
        d@.len() == 32,
{
    sha2::Sha256::digest(data).to_vec()
}

/// The lowercase hexadecimal text of the bytes: two digits each, high
/// nibble first.
pub open spec fn hex_text(bytes: Seq<u8>) -> Seq<char> {
    concat_map(bytes, |b: u8| byte_hex(b))
}

/// Encodes the bytes with `hex::encode`, whose documentation says that each
/// byte becomes two lowercase hexadecimal digits.
#[verifier::external_body]
fn hex_encode(bytes: &[u8]) -> (s: String)
    ensures
        s@ == hex_text(bytes@),
{
    hex::encode(bytes)
}

/// Scores and sizes of a model's training.  A score is kept as the IEEE 754
/// bits of its double-precision value, which the registry never reads.
#[derive(PartialEq, Eq, Structural, Clone, Copy, Debug)]
pub struct ModelMetadata {
    pub accuracy: Option<u64>,
    pub precision: Option<u64>,
    pub recall: Option<u64>,
    pub f1_score: Option<u64>,
    pub training_samples: u32,
    pub validation_samples: u32,
    pub training_duration_secs: u64,
}

/// A version of a model.
#[derive(Clone, Debug)]
pub struct ModelVersion {
    pub id: u128,
    pub model_name: String,
    pub version: String,
    pub model_type: ModelType,
    pub status: ModelStatus,
    /// The SHA-256 digest of the model data, in lowercase hexadecimal.
    pub checksum: String,
    pub size_bytes: u64,
    /// In seconds since the Unix epoch.
    pub created_at: i64,
    pub created_by: String,
    pub metadata: ModelMetadata,
    /// Tags by key, each key once.
    pub tags: Vec<(String, String)>,
}

/// The value of a tag.
pub open spec fn tag_value(tags: Seq<(String, String)>, key: Seq<char>) -> Option<Seq<char>>
    decreases tags.len(),
{
    if tags.len() == 0 {
        None
    } else if tags.last().0@ == key {
        Some(tags.last().1@)
    } else {
        tag_value(tags.drop_last(), key)
    }
}

impl ModelVersion {
    /// A new version in training, with a fresh random id, created now,
    /// without checksum, size, scores or tags.
    pub fn new(model_name: &str, version: &str, model_type: ModelType, created_by: &str) -> (m: ModelVersion)
        ensures
            m.model_name@ == model_name@,
            m.version@ == version@,
            m.model_type == model_type,
            m.status == ModelStatus::Training,
            m.checksum@.len() == 0,
            m.size_bytes == 0,
            m.created_by@ == created_by@,
            m.metadata == (ModelMetadata {
                accuracy: None,
                precision: None,
                recall: None,
                f1_score: None,
                training_samples: 0,
                validation_samples: 0,
                training_duration_secs: 0,
            }),
            m.tags@.len() == 0,
    {
        ModelVersion {
            id: new_v4(),
            model_name: owned(model_name),
            version: owned(version),
            model_type,
            status: ModelStatus::Training,
            checksum: String::new(),
            size_bytes: 0,
            created_at: clock::now(),
            created_by: owned(created_by),
            metadata: ModelMetadata {
                accuracy: None,
                precision: None,
                recall: None,
                f1_score: None,
                training_samples: 0,
                validation_samples: 0,
                training_duration_secs: 0,
            },
            tags: Vec::new(),
        }
    }

    /// The version with the checksum and size of its data.
    pub fn with_checksum(self, data: &[u8]) -> (m: ModelVersion)
        ensures
            m.checksum@ == hex_text(sha256_of(data@)),
            m.size_bytes == data@.len(),
            m.id == self.id && m.model_name == self.model_name && m.version == self.version,
            m.model_type == self.model_type && m.status == self.status && m.created_at == self.created_at,
            m.created_by == self.created_by && m.metadata == self.metadata && m.tags == self.tags,
    {
        let d = sha256(data);
        let mut m = self;
        m.checksum = hex_encode(d.as_slice());
        m.size_bytes = data.len() as u64;
        m
    }

    /// The version with these scores.
    pub fn with_metadata(self, metadata: ModelMetadata) -> (m: ModelVersion)
        ensures
            m == (ModelVersion { metadata, ..self }),
    {
        let mut m = self;
        m.metadata = metadata;
        m
    }

    /// The version with the tag set, replacing an earlier value of the key.
    pub fn with_tag(self, key: &str, value: &str) -> (m: ModelVersion)
        ensures
            tag_value(m.tags@, key@) == Some(value@),
            forall|k: Seq<char>| k != key@ ==> tag_value(m.tags@, k) == tag_value(self.tags@, k),
            m.id == self.id && m.model_name == self.model_name && m.version == self.version,
            m.model_type == self.model_type && m.status == self.status && m.checksum == self.checksum,
            m.created_by == self.created_by && m.metadata == self.metadata,
    {
        let mut m = self;
        let mut kept: Vec<(String, String)> = Vec::new();
        let mut i: usize = 0;
        while i < m.tags.len()
            invariant
                0 <= i <= m.tags@.len(),
                m.tags == self.tags,
                forall|k: Seq<char>| k != key@ ==> tag_value(kept@, k) == tag_value(m.tags@.take(i as int), k),
                tag_value(kept@, key@) is None,
            decreases m.tags.len() - i,
        {
            proof {
                assert(m.tags@.take(i + 1).drop_last() =~= m.tags@.take(i as int));
            }
            let ghost prefix = m.tags@.take(i as int);
            let ghost next = m.tags@.take(i + 1);
            if !str_eq(m.tags[i].0.as_str(), key) {
                let ghost before = kept@;
                kept.push((copy(&m.tags[i].0), copy(&m.tags[i].1)));
                proof {
                    assert(kept@.drop_last() =~= before);
                    assert(next.last() == m.tags@[i as int]);
                    assert forall|k: Seq<char>| k != key@ implies tag_value(kept@, k) == tag_value(next, k) by {
                        if k != kept@.last().0@ {
                            assert(tag_value(kept@, k) == tag_value(before, k));
                        }
                    }
                }
            } else {
                proof {
                    assert(next.last() == m.tags@[i as int]);
                    assert forall|k: Seq<char>| k != key@ implies tag_value(kept@, k) == tag_value(next, k) by {
                        assert(tag_value(next, k) == tag_value(prefix, k));
                    }
                }
            }
            i = i + 1;
        }
        proof {
            assert(m.tags@.take(m.tags@.len() as int) =~= m.tags@);
        }
        let ghost before = kept@;
        kept.push((owned(key), owned(value)));
        proof {
            assert(kept@.drop_last() =~= before);
            assert forall|k: Seq<char>| k != key@ implies tag_value(kept@, k) == tag_value(self.tags@, k) by {
                assert(tag_value(kept@, k) == tag_value(before, k));
            }
        }
        m.tags = kept;
        m
    }

    /// Sets the status.
    pub fn set_status(&mut self, status: ModelStatus)
        ensures
            *final(self) == (ModelVersion { status, ..*old(self) }),
    {
        self.status = status;
    }
}

/// Why the registry refused.
#[derive(PartialEq, Eq, Structural, Clone, Copy, Debug)]
pub enum RegistryError {
    ModelNotFound,
    NotValidated,
}

impl RegistryError {
    /// The message of the error.
    pub fn message(&self) -> (m: String)
        ensures
            m@ == (match *self {
                RegistryError::ModelNotFound => "Model not found"@,
                RegistryError::NotValidated => "Model must be validated before deployment"@,
            }),
    {
        match self {
            RegistryError::ModelNotFound => owned("Model not found"),
            RegistryError::NotValidated => owned("Model must be validated before deployment"),
        }
    }
}

/// The position of the model with that id.
pub open spec fn model_pos(ms: Seq<ModelVersion>, id: u128) -> Option<int>
    decreases ms.len(),
{
    if ms.len() == 0 {
        None
    } else if ms.last().id == id {
        Some(ms.len() - 1)
    } else {
        model_pos(ms.drop_last(), id)
    }
}

/// The ids of the versions registered under a name, in order.
pub open spec fn ids_of(names: Seq<(String, Vec<u128>)>, name: Seq<char>) -> Seq<u128>
    decreases names.len(),
{
    if names.len() == 0 {
        Seq::empty()
    } else if names.last().0@ == name {
        names.last().1@
    } else {
        ids_of(names.drop_last(), name)
    }
}

/// The id of the deployed model of a kind.
pub open spec fn deployed_id(ds: Seq<(ModelType, u128)>, t: ModelType) -> Option<u128>
    decreases ds.len(),
{
    if ds.len() == 0 {
        None
    } else if ds.last().0 == t {
        Some(ds.last().1)
    } else {
        deployed_id(ds.drop_last(), t)
    }
}

/// The models with these ids that exist, in the order of the ids.
pub open spec fn models_of(ms: Seq<ModelVersion>, ids: Seq<u128>) -> Seq<ModelVersion>
    decreases ids.len(),
{
    if ids.len() == 0 {
        Seq::empty()
    } else {
        let r = models_of(ms, ids.drop_last());
        match model_pos(ms, ids.last()) {
            Some(k) => r.push(ms[k]),
            None => r,
        }
    }
}

/// The models whose status is `status`, in order of registration.
pub open spec fn with_status(ms: Seq<ModelVersion>, status: ModelStatus) -> Seq<ModelVersion>
    decreases ms.len(),
{
    if ms.len() == 0 {
        Seq::empty()
    } else if ms.last().status == status {
        with_status(ms.drop_last(), status).push(ms.last())
    } else {
        with_status(ms.drop_last(), status)
    }
}

/// The models tagged `key` = `value`, in order of registration.
pub open spec fn with_tag_value(ms: Seq<ModelVersion>, key: Seq<char>, value: Seq<char>) -> Seq<ModelVersion>
    decreases ms.len(),
{
    if ms.len() == 0 {
        Seq::empty()
    } else if tag_value(ms.last().tags@, key) == Some(value) {
        with_tag_value(ms.drop_last(), key, value).push(ms.last())
    } else {
        with_tag_value(ms.drop_last(), key, value)
    }
}

proof fn lemma_model_pos(ms: Seq<ModelVersion>, id: u128)
    ensures
        match model_pos(ms, id) {
            Some(k) => 0 <= k < ms.len() && ms[k].id == id,
            None => forall|j: int| 0 <= j < ms.len() ==> (#[trigger] ms[j]).id != id,
        },
    decreases ms.len(),
{
    if ms.len() > 0 {
        lemma_model_pos(ms.drop_last(), id);
        if ms.last().id != id {
            match model_pos(ms.drop_last(), id) {
                Some(k) => {
                    assert(ms.drop_last()[k] == ms[k]);
                },
                None => {
                    assert forall|j: int| 0 <= j < ms.len() implies (#[trigger] ms[j]).id != id by {
                        if j < ms.len() - 1 {
                            assert(ms.drop_last()[j] == ms[j]);
                        }
                    }
                },
            }
        }
    }
}

proof fn lemma_model_pos_update(ms: Seq<ModelVersion>, id: u128, k: int, m: ModelVersion)
    requires
        model_pos(ms, id) == Some(k),
        m.id == id,
    ensures
        model_pos(ms.update(k, m), id) == Some(k),
    decreases ms.len(),
{
    lemma_model_pos(ms, id);
    let u = ms.update(k, m);
    if ms.last().id != id {
        lemma_model_pos(ms.drop_last(), id);
        assert(u.drop_last() =~= ms.drop_last().update(k, m));
        assert(u.last() == ms.last());
        lemma_model_pos_update(ms.drop_last(), id, k, m);
    } else {
        assert(u.last().id == id);
    }
}

/// Model versions by id and by name, and the deployed version of each kind.
pub struct ModelRegistry {
    models: Vec<ModelVersion>,
    versions_by_name: Vec<(String, Vec<u128>)>,
    deployed_models: Vec<(ModelType, u128)>,
}

impl ModelRegistry {
    pub closed spec fn models_view(&self) -> Seq<ModelVersion> {
        self.models@
    }

    pub closed spec fn names_view(&self) -> Seq<(String, Vec<u128>)> {
        self.versions_by_name@
    }

    pub closed spec fn deployed_view(&self) -> Seq<(ModelType, u128)> {
        self.deployed_models@
    }

    /// The model with that id, if any.
    pub open spec fn model(&self, id: u128) -> Option<ModelVersion> {
        match model_pos(self.models_view(), id) {
            Some(k) => Some(self.models_view()[k]),
            None => None,
        }
    }

    /// An empty registry.
    pub fn new() -> (r: ModelRegistry)
        ensures
            r.models_view().len() == 0,
            r.names_view().len() == 0,
            r.deployed_view().len() == 0,
    {
        ModelRegistry { models: Vec::new(), versions_by_name: Vec::new(), deployed_models: Vec::new() }
    }

    fn find_model(&self, id: u128) -> (r: Option<usize>)
        ensures
            match r {
                Some(k) => model_pos(self.models@, id) == Some(k as int),
                None => model_pos(self.models@, id) is None,
            },
    {
        let mut i: usize = self.models.len();
        proof {
            assert(self.models@.take(i as int) =~= self.models@);
        }
        while i > 0
            invariant
                0 <= i <= self.models@.len(),
                model_pos(self.models@, id) == model_pos(self.models@.take(i as int), id),
            decreases i,
        {
            proof {
                assert(self.models@.take(i as int).drop_last() =~= self.models@.take(i - 1));
            }
            if self.models[i - 1].id == id {
                return Some(i - 1);
            }
            i = i - 1;
        }
        None
    }

    fn find_name(&self, name: &str) -> (r: Option<usize>)
        ensures
            match r {
                Some(k) => k < self.versions_by_name@.len() && self.versions_by_name@[k as int].0@ == name@
                    && ids_of(self.versions_by_name@, name@) == self.versions_by_name@[k as int].1@
                    && forall|j: int| k < j < self.versions_by_name@.len() ==> (#[trigger] self.versions_by_name@[j]).0@ != name@,
                None => ids_of(self.versions_by_name@, name@) == Seq::<u128>::empty(),
            },
    {
        let mut i: usize = self.versions_by_name.len();
        proof {
            assert(self.versions_by_name@.take(i as int) =~= self.versions_by_name@);
        }
        while i > 0
            invariant
                0 <= i <= self.versions_by_name@.len(),
                ids_of(self.versions_by_name@, name@) == ids_of(self.versions_by_name@.take(i as int), name@),
                forall|j: int| i <= j < self.versions_by_name@.len() ==> (#[trigger] self.versions_by_name@[j]).0@ != name@,
            decreases i,
        {
            proof {
                assert(self.versions_by_name@.take(i as int).drop_last() =~= self.versions_by_name@.take(i - 1));
            }
            if str_eq(self.versions_by_name[i - 1].0.as_str(), name) {
                return Some(i - 1);
            }
            i = i - 1;
        }
        None
    }

    fn find_deployed(&self, t: ModelType) -> (r: Option<usize>)
        ensures
            match r {
                Some(k) => k < self.deployed_models@.len() && self.deployed_models@[k as int].0 == t
                    && deployed_id(self.deployed_models@, t) == Some(self.deployed_models@[k as int].1),
                None => deployed_id(self.deployed_models@, t) is None,
            },
    {
        let mut i: usize = self.deployed_models.len();
        proof {
            assert(self.deployed_models@.take(i as int) =~= self.deployed_models@);
        }
        while i > 0
            invariant
                0 <= i <= self.deployed_models@.len(),
                deployed_id(self.deployed_models@, t) == deployed_id(self.deployed_models@.take(i as int), t),
            decreases i,
        {
            proof {
                assert(self.deployed_models@.take(i as int).drop_last() =~= self.deployed_models@.take(i - 1));
            }
            if self.deployed_models[i - 1].0 == t {
                return Some(i - 1);
            }
            i = i - 1;
        }
        None
    }

    /// Stores the version under its id, replacing one with that id, and
    /// lists it last under its name.
    pub fn register_model(&mut self, model: ModelVersion) -> (r: Result<u128, RegistryError>)
        ensures
            r == Ok::<u128, RegistryError>(model.id),
            final(self).model(model.id) == Some(model),
            forall|id: u128| id != model.id ==> #[trigger] final(self).model(id) == old(self).model(id),
            ids_of(final(self).names_view(), model.model_name@) == ids_of(
                old(self).names_view(),
                model.model_name@,
            ).push(model.id),
            forall|n: Seq<char>|
                n != model.model_name@ ==> #[trigger] ids_of(final(self).names_view(), n) == ids_of(
                    old(self).names_view(),
                    n,
                ),
            final(self).deployed_view() == old(self).deployed_view(),
    {
        let id = model.id;
        match self.find_name(model.model_name.as_str()) {
            Some(k) => {
                let ghost before = self.versions_by_name@;
                let (n, mut ids) = self.versions_by_name.remove(k);
                ids.push(id);
                self.versions_by_name.insert(k, (n, ids));
                proof {
                    assert(self.versions_by_name@ =~= before.update(k as int, self.versions_by_name@[k as int]));
                    lemma_ids_of_update(before, k as int, self.versions_by_name@[k as int]);
                }
            },
            None => {
                let mut ids: Vec<u128> = Vec::new();
                ids.push(id);
                let ghost before = self.versions_by_name@;
                self.versions_by_name.push((copy(&model.model_name), ids));
                proof {
                    assert(self.versions_by_name@.drop_last() =~= before);
                    assert(ids_of(self.versions_by_name@, model.model_name@) =~= Seq::<u128>::empty().push(id));
                }
            },
        }
        proof {
            lemma_model_pos(self.models@, id);
        }
        match self.find_model(id) {
            Some(k) => {
                let ghost before = self.models@;
                self.models.set(k, model);
                proof {
                    lemma_model_pos_update(before, id, k as int, self.models@[k as int]);
                    assert forall|other: u128| other != id implies #[trigger] self.model(other) == old(self).model(
                        other,
                    ) by {
                        lemma_model_pos_other_update(before, other, k as int, self.models@[k as int]);
                        lemma_model_pos(before, other);
                    }
                }
            },
            None => {
                let ghost before = self.models@;
                self.models.push(model);
                proof {
                    assert(self.models@.drop_last() =~= before);
                    assert forall|other: u128| other != id implies #[trigger] self.model(other) == old(self).model(
                        other,
                    ) by {
                        lemma_model_pos(before, other);
                    }
                }
            },
        }
        Ok(id)
    }

    /// The model with that id.
    pub fn get_model(&self, model_id: &u128) -> (r: Option<&ModelVersion>)
        ensures
            match self.model(*model_id) {
                Some(m) => r == Some(&m),
                None => r is None,
            },
    {
        proof {
            lemma_model_pos(self.models@, *model_id);
        }
        match self.find_model(*model_id) {
            Some(k) => Some(&self.models[k]),
            None => None,
        }
    }

    /// The existing versions registered under the name, in order of
    /// registration.
    pub fn get_versions(&self, model_name: &str) -> (r: Vec<&ModelVersion>)
        ensures
            r@.map_values(|m: &ModelVersion| *m) == models_of(
                self.models_view(),
                ids_of(self.names_view(), model_name@),
            ),
    {
        let mut out: Vec<&ModelVersion> = Vec::new();
        match self.find_name(model_name) {
            None => {
                proof {
                    assert(out@.map_values(|m: &ModelVersion| *m) =~= Seq::<ModelVersion>::empty());
                }
                out
            },
            Some(k) => {
                let ids = &self.versions_by_name[k].1;
                let mut i: usize = 0;
                while i < ids.len()
                    invariant
                        0 <= i <= ids@.len(),
                        ids@ == ids_of(self.versions_by_name@, model_name@),
                        out@.map_values(|m: &ModelVersion| *m) == models_of(self.models@, ids@.take(i as int)),
                    decreases ids.len() - i,
                {
                    proof {
                        assert(ids@.take(i + 1).drop_last() =~= ids@.take(i as int));
                        lemma_model_pos(self.models@, ids@[i as int]);
                    }
                    let ghost before = out@.map_values(|m: &ModelVersion| *m);
                    match self.find_model(ids[i]) {
                        Some(j) => {
                            out.push(&self.models[j]);
                            proof {
                                assert(out@.map_values(|m: &ModelVersion| *m) =~= before.push(self.models@[j as int]));
                            }
                        },
                        None => {},
                    }
                    i = i + 1;
                }
                proof {
                    assert(ids@.take(ids@.len() as int) =~= ids@);
                }
                out
            },
        }
    }

    /// The version registered last under the name, if it exists.
    pub fn get_latest_version(&self, model_name: &str) -> (r: Option<&ModelVersion>)
        ensures
            ({
                let ids = ids_of(self.names_view(), model_name@);
                if ids.len() == 0 {
                    r is None
                } else {
                    match self.model(ids.last()) {
                        Some(m) => r == Some(&m),
                        None => r is None,
                    }
                }
            }),
    {
        match self.find_name(model_name) {
            None => None,
            Some(k) => {
                let ids = &self.versions_by_name[k].1;
                if ids.len() == 0 {
                    None
                } else {
                    self.get_model(&ids[ids.len() - 1])
                }
            },
        }
    }

    /// Deploys a validated version, which becomes the deployed one of its
    /// kind; refused for an unknown or unvalidated version.
    pub fn deploy_model(&mut self, model_id: &u128) -> (r: Result<(), RegistryError>)
        ensures
            match old(self).model(*model_id) {
                None => r == Err::<(), RegistryError>(RegistryError::ModelNotFound) && *final(self) == *old(self),
                Some(m) => if m.status != ModelStatus::Validated {
                    r == Err::<(), RegistryError>(RegistryError::NotValidated) && *final(self) == *old(self)
                } else {
                    &&& r == Ok::<(), RegistryError>(())
                    &&& final(self).model(*model_id) == Some(ModelVersion { status: ModelStatus::Deployed, ..m })
                    &&& forall|id: u128| id != *model_id ==> #[trigger] final(self).model(id) == old(self).model(id)
                    &&& deployed_id(final(self).deployed_view(), m.model_type) == Some(*model_id)
                    &&& forall|t: ModelType| t != m.model_type ==> #[trigger] deployed_id(final(self).deployed_view(), t)
                        == deployed_id(old(self).deployed_view(), t)
                    &&& final(self).names_view() == old(self).names_view()
                },
            },
    {
        proof {
            lemma_model_pos(self.models@, *model_id);
        }
        match self.find_model(*model_id) {
            None => Err(RegistryError::ModelNotFound),
            Some(k) => {
                if self.models[k].status != ModelStatus::Validated {
                    return Err(RegistryError::NotValidated);
                }
                let t = self.models[k].model_type;
                self.set_deployed(t, *model_id);
                let ghost before = self.models@;
                let mut m = self.models.remove(k);
                m.status = ModelStatus::Deployed;
                self.models.insert(k, m);
                proof {
                    assert(self.models@ =~= before.update(k as int, self.models@[k as int]));
                    lemma_model_pos_update(before, *model_id, k as int, self.models@[k as int]);
                    assert forall|other: u128| other != *model_id implies #[trigger] self.model(other) == old(
                        self,
                    ).model(other) by {
                        lemma_model_pos_other_update(before, other, k as int, self.models@[k as int]);
                        lemma_model_pos(before, other);
                    }
                }
                Ok(())
            },
        }
    }

    fn set_deployed(&mut self, t: ModelType, id: u128)
        ensures
            deployed_id(final(self).deployed_models@, t) == Some(id),
            forall|u: ModelType| u != t ==> #[trigger] deployed_id(final(self).deployed_models@, u) == deployed_id(
                old(self).deployed_models@,
                u,
            ),
            final(self).models@ == old(self).models@,
            final(self).versions_by_name@ == old(self).versions_by_name@,
    {
        let ghost before = self.deployed_models@;
        self.deployed_models.push((t, id));
        proof {
            assert(self.deployed_models@.drop_last() =~= before);
        }
    }

    /// The deployed version of a kind.
    pub fn get_deployed_model(&self, model_type: &ModelType) -> (r: Option<&ModelVersion>)
        ensures
            match deployed_id(self.deployed_view(), *model_type) {
                Some(id) => match self.model(id) {
                    Some(m) => r == Some(&m),
                    None => r is None,
                },
                None => r is None,
            },
    {
        match self.find_deployed(*model_type) {
            None => None,
            Some(k) => {
                let id = self.deployed_models[k].1;
                self.get_model(&id)
            },
        }
    }

    /// Sets the status of a version; refused for an unknown one.
    pub fn update_status(&mut self, model_id: &u128, status: ModelStatus) -> (r: Result<(), RegistryError>)
        ensures
            match old(self).model(*model_id) {
                None => r == Err::<(), RegistryError>(RegistryError::ModelNotFound) && *final(self) == *old(self),
                Some(m) => {
                    &&& r == Ok::<(), RegistryError>(())
                    &&& final(self).model(*model_id) == Some(ModelVersion { status, ..m })
                    &&& forall|id: u128| id != *model_id ==> #[trigger] final(self).model(id) == old(self).model(id)
                    &&& final(self).deployed_view() == old(self).deployed_view()
                    &&& final(self).names_view() == old(self).names_view()
                },
            },
    {
        proof {
            lemma_model_pos(self.models@, *model_id);
        }
        match self.find_model(*model_id) {
            None => Err(RegistryError::ModelNotFound),
            Some(k) => {
                let ghost before = self.models@;
                let mut m = self.models.remove(k);
                m.status = status;
                self.models.insert(k, m);
                proof {
                    assert(self.models@ =~= before.update(k as int, self.models@[k as int]));
                    lemma_model_pos_update(before, *model_id, k as int, self.models@[k as int]);
                    assert forall|other: u128| other != *model_id implies #[trigger] self.model(other) == old(
                        self,
                    ).model(other) by {
                        lemma_model_pos_other_update(before, other, k as int, self.models@[k as int]);
                        lemma_model_pos(before, other);
                    }
                }
                Ok(())
            },
        }
    }

    /// Archives a version; a deployed one stops being the deployed version
    /// of its kind.  Refused for an unknown version.
    pub fn archive_model(&mut self, model_id: &u128) -> (r: Result<(), RegistryError>)
        ensures
            match old(self).model(*model_id) {
                None => r == Err::<(), RegistryError>(RegistryError::ModelNotFound) && *final(self) == *old(self),
                Some(m) => {
                    &&& r == Ok::<(), RegistryError>(())
                    &&& final(self).model(*model_id) == Some(ModelVersion { status: ModelStatus::Archived, ..m })
                    &&& forall|id: u128| id != *model_id ==> #[trigger] final(self).model(id) == old(self).model(id)
                    &&& (m.status == ModelStatus::Deployed ==> deployed_id(final(self).deployed_view(), m.model_type)
                        is None)
                    &&& forall|t: ModelType|
                        (m.status != ModelStatus::Deployed || t != m.model_type) ==> #[trigger] deployed_id(
                            final(self).deployed_view(),
                            t,
                        ) == deployed_id(old(self).deployed_view(), t)
                    &&& final(self).names_view() == old(self).names_view()
                },
            },
    {
        proof {
            lemma_model_pos(self.models@, *model_id);
        }
        match self.find_model(*model_id) {
            None => Err(RegistryError::ModelNotFound),
            Some(k) => {
                let was_deployed = self.models[k].status == ModelStatus::Deployed;
                let t = self.models[k].model_type;
                if was_deployed {
                    self.clear_deployed(t);
                }
                let ghost before = self.models@;
                let mut m = self.models.remove(k);
                m.status = ModelStatus::Archived;
                self.models.insert(k, m);
                proof {
                    assert(self.models@ =~= before.update(k as int, self.models@[k as int]));
                    lemma_model_pos_update(before, *model_id, k as int, self.models@[k as int]);
                    assert forall|other: u128| other != *model_id implies #[trigger] self.model(other) == old(
                        self,
                    ).model(other) by {
                        lemma_model_pos_other_update(before, other, k as int, self.models@[k as int]);
                        lemma_model_pos(before, other);
                    }
                }
                Ok(())
            },
        }
    }

    fn clear_deployed(&mut self, t: ModelType)
        ensures
            deployed_id(final(self).deployed_models@, t) is None,
            forall|u: ModelType| u != t ==> #[trigger] deployed_id(final(self).deployed_models@, u) == deployed_id(
                old(self).deployed_models@,
                u,
            ),
            final(self).models@ == old(self).models@,
            final(self).versions_by_name@ == old(self).versions_by_name@,
    {
        let mut kept: Vec<(ModelType, u128)> = Vec::new();
        let mut i: usize = 0;
        while i < self.deployed_models.len()
            invariant
                0 <= i <= self.deployed_models@.len(),
                self.deployed_models@ == old(self).deployed_models@,
                self.models@ == old(self).models@,
                self.versions_by_name@ == old(self).versions_by_name@,
                deployed_id(kept@, t) is None,
                forall|u: ModelType| u != t ==> #[trigger] deployed_id(kept@, u) == deployed_id(
                    self.deployed_models@.take(i as int),
                    u,
                ),
            decreases self.deployed_models.len() - i,
        {
            proof {
                assert(self.deployed_models@.take(i + 1).drop_last() =~= self.deployed_models@.take(i as int));
            }
            let e = self.deployed_models[i];
            let ghost prefix = self.deployed_models@.take(i as int);
            let ghost next = self.deployed_models@.take(i + 1);
            proof {
                assert(next.last() == e);
            }
            if e.0 != t {
                let ghost before = kept@;
                kept.push(e);
                proof {
                    assert(kept@.drop_last() =~= before);
                    assert forall|u: ModelType| u != t implies #[trigger] deployed_id(kept@, u) == deployed_id(next, u) by {
                        if u != e.0 {
                            assert(deployed_id(kept@, u) == deployed_id(before, u));
                            assert(deployed_id(next, u) == deployed_id(prefix, u));
                        }
                    }
                }
            } else {
                proof {
                    assert forall|u: ModelType| u != t implies #[trigger] deployed_id(kept@, u) == deployed_id(next, u) by {
                        assert(deployed_id(next, u) == deployed_id(prefix, u));
                    }
                }
            }
            i = i + 1;
        }
        proof {
            assert(self.deployed_models@.take(self.deployed_models@.len() as int) =~= self.deployed_models@);
        }
        self.deployed_models = kept;
    }

    /// The versions with that status, in order of registration.
    pub fn list_models_by_status(&self, status: &ModelStatus) -> (r: Vec<&ModelVersion>)
        ensures
            r@.map_values(|m: &ModelVersion| *m) == with_status(self.models_view(), *status),
    {
        let mut out: Vec<&ModelVersion> = Vec::new();
        let mut i: usize = 0;
        while i < self.models.len()
            invariant
                0 <= i <= self.models@.len(),
                out@.map_values(|m: &ModelVersion| *m) == with_status(self.models@.take(i as int), *status),
            decreases self.models.len() - i,
        {
            proof {
                assert(self.models@.take(i + 1).drop_last() =~= self.models@.take(i as int));
            }
            if self.models[i].status == *status {
                let ghost before = out@.map_values(|m: &ModelVersion| *m);
                out.push(&self.models[i]);
                proof {
                    assert(out@.map_values(|m: &ModelVersion| *m) =~= before.push(self.models@[i as int]));
                }
            }
            i = i + 1;
        }
        proof {
            assert(self.models@.take(self.models@.len() as int) =~= self.models@);
        }
        out
    }

    /// The versions tagged `key` = `value`, in order of registration.
    pub fn search_by_tag(&self, key: &str, value: &str) -> (r: Vec<&ModelVersion>)
        ensures
            r@.map_values(|m: &ModelVersion| *m) == with_tag_value(self.models_view(), key@, value@),
    {
        let mut out: Vec<&ModelVersion> = Vec::new();
        let mut i: usize = 0;
        while i < self.models.len()
            invariant
                0 <= i <= self.models@.len(),
                out@.map_values(|m: &ModelVersion| *m) == with_tag_value(self.models@.take(i as int), key@, value@),
            decreases self.models.len() - i,
        {
            proof {
                assert(self.models@.take(i + 1).drop_last() =~= self.models@.take(i as int));
            }
            let hit = match tag_of(&self.models[i].tags, key) {
                Some(v) => str_eq(v.as_str(), value),
                None => false,
            };
            if hit {
                let ghost before = out@.map_values(|m: &ModelVersion| *m);
                out.push(&self.models[i]);
                proof {
                    assert(out@.map_values(|m: &ModelVersion| *m) =~= before.push(self.models@[i as int]));
                }
            }
            i = i + 1;
        }
        proof {
            assert(self.models@.take(self.models@.len() as int) =~= self.models@);
        }
        out
    }
}

/// The value of a tag, by reference.
pub fn tag_of<'a>(tags: &'a Vec<(String, String)>, key: &str) -> (r: Option<&'a String>)
    ensures
        match r {
            Some(v) => tag_value(tags@, key@) == Some(v@),
            None => tag_value(tags@, key@) is None,
        },
{
    let mut i: usize = tags.len();
    proof {
        assert(tags@.take(i as int) =~= tags@);
    }
    while i > 0
        invariant
            0 <= i <= tags@.len(),
            tag_value(tags@, key@) == tag_value(tags@.take(i as int), key@),
        decreases i,
    {
        proof {
            assert(tags@.take(i as int).drop_last() =~= tags@.take(i - 1));
        }
        if str_eq(tags[i - 1].0.as_str(), key) {
            return Some(&tags[i - 1].1);
        }
        i = i - 1;
    }
    None
}

pub(crate) proof fn lemma_ids_of_update(names: Seq<(String, Vec<u128>)>, k: int, e: (String, Vec<u128>))
    requires
        0 <= k < names.len(),
        e.0@ == names[k].0@,
        forall|j: int| k < j < names.len() ==> (#[trigger] names[j]).0@ != e.0@,
    ensures
        ids_of(names.update(k, e), e.0@) == e.1@,
        forall|n: Seq<char>| n != e.0@ ==> #[trigger] ids_of(names.update(k, e), n) == ids_of(names, n),
    decreases names.len(),
{
    let u = names.update(k, e);
    if k == names.len() - 1 {
        assert(u.drop_last() =~= names.drop_last());
        assert(u.last() == e);
        assert forall|n: Seq<char>| n != e.0@ implies #[trigger] ids_of(u, n) == ids_of(names, n) by {}
    } else {
        assert(u.drop_last() =~= names.drop_last().update(k, e));
        assert(u.last() == names.last());
        assert(names.last() == names[names.len() - 1]);
        assert forall|j: int| k < j < names.drop_last().len() implies (#[trigger] names.drop_last()[j]).0@ != e.0@ by {
            assert(names.drop_last()[j] == names[j]);
        }
        lemma_ids_of_update(names.drop_last(), k, e);
        assert forall|n: Seq<char>| n != e.0@ implies #[trigger] ids_of(u, n) == ids_of(names, n) by {
            assert(ids_of(names.drop_last().update(k, e), n) == ids_of(names.drop_last(), n));
        }
    }
}

proof fn lemma_model_pos_other_update(ms: Seq<ModelVersion>, other: u128, k: int, m: ModelVersion)
    requires
        0 <= k < ms.len(),
        m.id == ms[k].id,
        other != m.id,
    ensures
        model_pos(ms.update(k, m), other) == model_pos(ms, other),
    decreases ms.len(),
{
    let u = ms.update(k, m);
    if k == ms.len() - 1 {
        assert(u.drop_last() =~= ms.drop_last());
    } else {
        assert(u.drop_last() =~= ms.drop_last().update(k, m));
        assert(u.last() == ms.last());
        lemma_model_pos_other_update(ms.drop_last(), other, k, m);
    }
}

/// Deploying a validated version makes it the deployed version of its kind:
/// what `get_deployed_model` then gives.
pub proof fn lemma_deploy_then_get(before: ModelRegistry, after: ModelRegistry, id: u128)
    requires
        before.model(id) matches Some(m) && m.status == ModelStatus::Validated,
        after.model(id) == Some(ModelVersion { status: ModelStatus::Deployed, ..before.model(id).unwrap() }),
        deployed_id(after.deployed_view(), before.model(id).unwrap().model_type) == Some(id),
    ensures
        ({
            let t = before.model(id).unwrap().model_type;
            deployed_id(after.deployed_view(), t) matches Some(d) && after.model(d) matches Some(x)
                && x.id == id && x.status == ModelStatus::Deployed
        }),
{
    let m = before.model(id).unwrap();
    lemma_model_pos(before.models_view(), id);
    lemma_model_pos(after.models_view(), id);
}

impl Default for ModelRegistry {
    /// An empty registry.
    fn default() -> (r: ModelRegistry)
        ensures
            r.models_view().len() == 0,
            r.names_view().len() == 0,
            r.deployed_view().len() == 0,
    {
        ModelRegistry::new()
    }
}

} // verus!
