//! The slice of a Kubernetes `PodSpec` that carries authority.
//!
//! An admission review carries the whole object: labels, probes, scheduling hints. What decides
//! what a pod can reach is a short list of fields, and those are what is read here. Fields that
//! are not in the list are ignored. A document without `containers` is another matter: it is not
//! a pod that runs nothing but a document that cannot be vouched for.
use vstd::prelude::*;

use crate::cost::{CostError, CostErrorModel, Placed};
use crate::json;
use crate::json::{check, check_members, read_field, read_required, Json, Members, Readable, Tree};
use crate::model;
use crate::text::{owned, same};

verus! {


/// Why a spec could not be read.
#[derive(Debug, Clone, PartialEq, Eq)]
pub enum SpecError {
    /// Not JSON, or a field of the wrong shape.
    Json(String),
    /// JSON, but no pod: there is no `containers` field.
    NotAPodSpec,
    /// A container asks for a quantity that cannot be read.
    Cost(CostError),
}

/// What a [`SpecError`] says.
#[verifier::ext_equal]
pub enum SpecErrorModel {
    Json(Seq<char>),
    NotAPodSpec,
    Cost(CostErrorModel),
}

impl DeepView for SpecError {
    type V = SpecErrorModel;

    open spec fn deep_view(&self) -> SpecErrorModel {
        match self {
            SpecError::Json(x) => SpecErrorModel::Json(x.deep_view()),
            SpecError::NotAPodSpec => SpecErrorModel::NotAPodSpec,
            SpecError::Cost(x) => SpecErrorModel::Cost(x.deep_view()),
        }
    }
}

/// Where a container sits in the pod's lifecycle.
#[derive(Debug, Clone, Copy, PartialEq, Eq, Structural)]
pub enum ContainerKind {
    /// Runs to completion before the app containers start.
    Init,
    /// An init container with `restartPolicy: Always`, which runs for the pod's whole life.
    Sidecar,
    /// An ordinary `containers[]` entry.
    App,
    /// Injected into a running pod.
    Ephemeral,
}

impl DeepView for ContainerKind {
    type V = ContainerKind;

    open spec fn deep_view(&self) -> ContainerKind {
        *self
    }
}

impl ContainerKind {
    /// Where such a container is listed in the spec.
    pub open spec fn place(self) -> Seq<char> {
        match self {
            ContainerKind::Init => "initContainers"@,
            ContainerKind::Sidecar => "initContainers(sidecar)"@,
            ContainerKind::App => "containers"@,
            ContainerKind::Ephemeral => "ephemeralContainers"@,
        }
    }

    pub fn as_str(self) -> (r: &'static str)
        ensures
            r@ == self.place(),
    {
        match self {
            ContainerKind::Init => "initContainers",
            ContainerKind::Sidecar => "initContainers(sidecar)",
            ContainerKind::App => "containers",
            ContainerKind::Ephemeral => "ephemeralContainers",
        }
    }
}

/// The pod, reduced to what carries authority.
#[derive(Debug, Clone, PartialEq, Eq)]
pub struct PodSpec {
    pub host_network: bool,
    pub host_pid: bool,
    pub host_ipc: bool,
    /// The identity that the pod's API requests carry. Empty means `default`, which is a real account.
    pub service_account_name: String,
    pub volumes: Vec<Volume>,
    pub security_context: PodSecurityContext,
    /// Required: see [`SpecError::NotAPodSpec`].
    pub containers: Vec<Container>,
    pub init_containers: Vec<Container>,
    pub ephemeral_containers: Vec<Container>,
}

/// What a [`PodSpec`] says.
#[verifier::ext_equal]
pub struct PodSpecModel {
    pub host_network: bool,
    pub host_pid: bool,
    pub host_ipc: bool,
    pub service_account_name: Seq<char>,
    pub volumes: Seq<VolumeModel>,
    pub security_context: PodSecurityContextModel,
    pub containers: Seq<ContainerModel>,
    pub init_containers: Seq<ContainerModel>,
    pub ephemeral_containers: Seq<ContainerModel>,
}

impl DeepView for PodSpec {
    type V = PodSpecModel;

    open spec fn deep_view(&self) -> PodSpecModel {
        PodSpecModel {
            host_network: self.host_network.deep_view(),
            host_pid: self.host_pid.deep_view(),
            host_ipc: self.host_ipc.deep_view(),
            service_account_name: self.service_account_name.deep_view(),
            volumes: self.volumes.deep_view(),
            security_context: self.security_context.deep_view(),
            containers: self.containers.deep_view(),
            init_containers: self.init_containers.deep_view(),
            ephemeral_containers: self.ephemeral_containers.deep_view(),
        }
    }
}

impl Default for PodSpec {
    fn default() -> (r: PodSpec)
        ensures
            r.deep_view() == PodSpec::nothing(),
    {
        let r = PodSpec {
            host_network: false,
            host_pid: false,
            host_ipc: false,
            service_account_name: String::new(),
            volumes: Vec::new(),
            security_context: PodSecurityContext::default(),
            containers: Vec::new(),
            init_containers: Vec::new(),
            ephemeral_containers: Vec::new(),
        };
        assert(r.volumes.deep_view() =~= Seq::empty());
        assert(r.containers.deep_view() =~= Seq::empty());
        assert(r.init_containers.deep_view() =~= Seq::empty());
        assert(r.ephemeral_containers.deep_view() =~= Seq::empty());
        r
    }
}

impl Members for PodSpec {
    open spec fn member_fault(name: Seq<char>, v: Tree) -> Option<Seq<char>> {
        if name == "hostNetwork"@ {
            bool::fault(v)
        } else if name == "hostPID"@ {
            bool::fault(v)
        } else if name == "hostIPC"@ {
            bool::fault(v)
        } else if name == "serviceAccountName"@ {
            String::fault(v)
        } else if name == "volumes"@ {
            <Vec<Volume> as Readable>::fault(v)
        } else if name == "securityContext"@ {
            PodSecurityContext::fault(v)
        } else if name == "containers"@ {
            <Vec<Container> as Readable>::fault(v)
        } else if name == "initContainers"@ {
            <Vec<Container> as Readable>::fault(v)
        } else if name == "ephemeralContainers"@ {
            <Vec<Container> as Readable>::fault(v)
        } else {
            None
        }
    }

    fn check_member(name: &str, v: &Json) -> (r: Result<(), String>) {
        if same(name, "hostNetwork") {
            check::<bool>(v)
        } else if same(name, "hostPID") {
            check::<bool>(v)
        } else if same(name, "hostIPC") {
            check::<bool>(v)
        } else if same(name, "serviceAccountName") {
            check::<String>(v)
        } else if same(name, "volumes") {
            check::<Vec<Volume>>(v)
        } else if same(name, "securityContext") {
            check::<PodSecurityContext>(v)
        } else if same(name, "containers") {
            check::<Vec<Container>>(v)
        } else if same(name, "initContainers") {
            check::<Vec<Container>>(v)
        } else if same(name, "ephemeralContainers") {
            check::<Vec<Container>>(v)
        } else {
            Ok(())
        }
    }
}

impl Readable for PodSpec {
    open spec fn fault(t: Tree) -> Option<Seq<char>> {
        let f = t.record_fault("struct PodSpec"@);
        let f = json::first_fault(f, json::members_fault::<PodSpec>(t));
        let f = json::first_fault(f, json::field_fault::<bool>(t, "hostNetwork"@, 0));
        let f = json::first_fault(f, json::field_fault::<bool>(t, "hostPID"@, 1));
        let f = json::first_fault(f, json::field_fault::<bool>(t, "hostIPC"@, 2));
        let f = json::first_fault(f, json::field_fault::<String>(t, "serviceAccountName"@, 3));
        let f = json::first_fault(f, json::field_fault::<Vec<Volume>>(t, "volumes"@, 4));
        let f = json::first_fault(f, json::field_fault::<PodSecurityContext>(t, "securityContext"@, 5));
        let f = json::first_fault(
            f,
            json::required_fault::<Vec<Container>>(t, "containers"@, 6, "struct PodSpec with 9 elements"@),
        );
        let f = json::first_fault(f, json::field_fault::<Vec<Container>>(t, "initContainers"@, 7));
        let f = json::first_fault(f, json::field_fault::<Vec<Container>>(t, "ephemeralContainers"@, 8));
        json::first_fault(f, t.surplus_fault(9))
    }

    open spec fn value(t: Tree) -> PodSpecModel {
        PodSpecModel {
            host_network: json::field_value::<bool>(t, "hostNetwork"@, 0),
            host_pid: json::field_value::<bool>(t, "hostPID"@, 1),
            host_ipc: json::field_value::<bool>(t, "hostIPC"@, 2),
            service_account_name: json::field_value::<String>(t, "serviceAccountName"@, 3),
            volumes: json::field_value::<Vec<Volume>>(t, "volumes"@, 4),
            security_context: json::field_value::<PodSecurityContext>(t, "securityContext"@, 5),
            containers: json::field_value::<Vec<Container>>(t, "containers"@, 6),
            init_containers: json::field_value::<Vec<Container>>(t, "initContainers"@, 7),
            ephemeral_containers: json::field_value::<Vec<Container>>(t, "ephemeralContainers"@, 8),
        }
    }

    open spec fn nothing() -> PodSpecModel {
        PodSpecModel {
            host_network: false,
            host_pid: false,
            host_ipc: false,
            service_account_name: Seq::empty(),
            volumes: Seq::empty(),
            security_context: PodSecurityContext::nothing(),
            containers: Seq::empty(),
            init_containers: Seq::empty(),
            ephemeral_containers: Seq::empty(),
        }
    }

    fn read(j: &Json) -> (r: Result<Self, String>) {
        if let Err(e) = j.check_record("struct PodSpec") {
            return Err(e);
        }
        if let Err(e) = check_members::<PodSpec>(j) {
            return Err(e);
        }
        let host_network: bool = match read_field(j, "hostNetwork", 0) {
            Ok(x) => x,
            Err(e) => return Err(e),
        };
        let host_pid: bool = match read_field(j, "hostPID", 1) {
            Ok(x) => x,
            Err(e) => return Err(e),
        };
        let host_ipc: bool = match read_field(j, "hostIPC", 2) {
            Ok(x) => x,
            Err(e) => return Err(e),
        };
        let service_account_name: String = match read_field(j, "serviceAccountName", 3) {
            Ok(x) => x,
            Err(e) => return Err(e),
        };
        let volumes: Vec<Volume> = match read_field(j, "volumes", 4) {
            Ok(x) => x,
            Err(e) => return Err(e),
        };
        let security_context: PodSecurityContext = match read_field(j, "securityContext", 5) {
            Ok(x) => x,
            Err(e) => return Err(e),
        };
        let containers: Vec<Container> = match read_required(
            j,
            "containers",
            6,
            "struct PodSpec with 9 elements",
        ) {
            Ok(x) => x,
            Err(e) => return Err(e),
        };
        let init_containers: Vec<Container> = match read_field(j, "initContainers", 7) {
            Ok(x) => x,
            Err(e) => return Err(e),
        };
        let ephemeral_containers: Vec<Container> = match read_field(j, "ephemeralContainers", 8) {
            Ok(x) => x,
            Err(e) => return Err(e),
        };
        if let Err(e) = j.check_surplus(9) {
            return Err(e);
        }
        Ok(PodSpec {
            host_network,
            host_pid,
            host_ipc,
            service_account_name,
            volumes,
            security_context,
            containers,
            init_containers,
            ephemeral_containers,
        })
    }

    fn absent() -> (r: Self) {
        PodSpec::default()
    }
}

/// The pod-wide security context.
#[derive(Debug, Clone, PartialEq, Eq)]
pub struct PodSecurityContext {
    pub run_as_user: Option<i64>,
    pub run_as_non_root: Option<bool>,
}

/// What a [`PodSecurityContext`] says.
#[verifier::ext_equal]
pub struct PodSecurityContextModel {
    pub run_as_user: Option<i64>,
    pub run_as_non_root: Option<bool>,
}

impl DeepView for PodSecurityContext {
    type V = PodSecurityContextModel;

    open spec fn deep_view(&self) -> PodSecurityContextModel {
        PodSecurityContextModel {
            run_as_user: self.run_as_user.deep_view(),
            run_as_non_root: self.run_as_non_root.deep_view(),
        }
    }
}

impl Default for PodSecurityContext {
    fn default() -> (r: PodSecurityContext)
        ensures
            r.deep_view() == PodSecurityContext::nothing(),
    {
        let r = PodSecurityContext {
            run_as_user: None,
            run_as_non_root: None,
        };
        r
    }
}

impl Members for PodSecurityContext {
    open spec fn member_fault(name: Seq<char>, v: Tree) -> Option<Seq<char>> {
        if name == "runAsUser"@ {
            <Option<i64> as Readable>::fault(v)
        } else if name == "runAsNonRoot"@ {
            <Option<bool> as Readable>::fault(v)
        } else {
            None
        }
    }

    fn check_member(name: &str, v: &Json) -> (r: Result<(), String>) {
        if same(name, "runAsUser") {
            check::<Option<i64>>(v)
        } else if same(name, "runAsNonRoot") {
            check::<Option<bool>>(v)
        } else {
            Ok(())
        }
    }
}

impl Readable for PodSecurityContext {
    open spec fn fault(t: Tree) -> Option<Seq<char>> {
        let f = t.record_fault("struct PodSecurityContext"@);
        let f = json::first_fault(f, json::members_fault::<PodSecurityContext>(t));
        let f = json::first_fault(f, json::field_fault::<Option<i64>>(t, "runAsUser"@, 0));
        let f = json::first_fault(f, json::field_fault::<Option<bool>>(t, "runAsNonRoot"@, 1));
        json::first_fault(f, t.surplus_fault(2))
    }

    open spec fn value(t: Tree) -> PodSecurityContextModel {
        PodSecurityContextModel {
            run_as_user: json::field_value::<Option<i64>>(t, "runAsUser"@, 0),
            run_as_non_root: json::field_value::<Option<bool>>(t, "runAsNonRoot"@, 1),
        }
    }

    open spec fn nothing() -> PodSecurityContextModel {
        PodSecurityContextModel {
            run_as_user: None,
            run_as_non_root: None,
        }
    }

    fn read(j: &Json) -> (r: Result<Self, String>) {
        if let Err(e) = j.check_record("struct PodSecurityContext") {
            return Err(e);
        }
        if let Err(e) = check_members::<PodSecurityContext>(j) {
            return Err(e);
        }
        let run_as_user: Option<i64> = match read_field(j, "runAsUser", 0) {
            Ok(x) => x,
            Err(e) => return Err(e),
        };
        let run_as_non_root: Option<bool> = match read_field(j, "runAsNonRoot", 1) {
            Ok(x) => x,
            Err(e) => return Err(e),
        };
        if let Err(e) = j.check_surplus(2) {
            return Err(e);
        }
        Ok(PodSecurityContext { run_as_user, run_as_non_root })
    }

    fn absent() -> (r: Self) {
        PodSecurityContext::default()
    }
}

/// One container.
#[derive(Debug, Clone, PartialEq, Eq)]
pub struct Container {
    pub name: String,
    pub image: String,
    /// `Always` on an init container makes it a sidecar.
    pub restart_policy: Option<String>,
    pub security_context: SecurityContext,
    pub volume_mounts: Vec<VolumeMount>,
    pub env: Vec<EnvVar>,
    pub env_from: Vec<EnvFromSource>,
    pub resources: Resources,
}

/// What a [`Container`] says.
#[verifier::ext_equal]
pub struct ContainerModel {
    pub name: Seq<char>,
    pub image: Seq<char>,
    pub restart_policy: Option<Seq<char>>,
    pub security_context: SecurityContextModel,
    pub volume_mounts: Seq<VolumeMountModel>,
    pub env: Seq<EnvVarModel>,
    pub env_from: Seq<EnvFromSourceModel>,
    pub resources: ResourcesModel,
}

impl DeepView for Container {
    type V = ContainerModel;

    open spec fn deep_view(&self) -> ContainerModel {
        ContainerModel {
            name: self.name.deep_view(),
            image: self.image.deep_view(),
            restart_policy: self.restart_policy.deep_view(),
            security_context: self.security_context.deep_view(),
            volume_mounts: self.volume_mounts.deep_view(),
            env: self.env.deep_view(),
            env_from: self.env_from.deep_view(),
            resources: self.resources.deep_view(),
        }
    }
}

impl Default for Container {
    fn default() -> (r: Container)
        ensures
            r.deep_view() == Container::nothing(),
    {
        let r = Container {
            name: String::new(),
            image: String::new(),
            restart_policy: None,
            security_context: SecurityContext::default(),
            volume_mounts: Vec::new(),
            env: Vec::new(),
            env_from: Vec::new(),
            resources: Resources::default(),
        };
        assert(r.volume_mounts.deep_view() =~= Seq::empty());
        assert(r.env.deep_view() =~= Seq::empty());
        assert(r.env_from.deep_view() =~= Seq::empty());
        r
    }
}

impl Members for Container {
    open spec fn member_fault(name: Seq<char>, v: Tree) -> Option<Seq<char>> {
        if name == "name"@ {
            String::fault(v)
        } else if name == "image"@ {
            String::fault(v)
        } else if name == "restartPolicy"@ {
            <Option<String> as Readable>::fault(v)
        } else if name == "securityContext"@ {
            SecurityContext::fault(v)
        } else if name == "volumeMounts"@ {
            <Vec<VolumeMount> as Readable>::fault(v)
        } else if name == "env"@ {
            <Vec<EnvVar> as Readable>::fault(v)
        } else if name == "envFrom"@ {
            <Vec<EnvFromSource> as Readable>::fault(v)
        } else if name == "resources"@ {
            Resources::fault(v)
        } else {
            None
        }
    }

    fn check_member(name: &str, v: &Json) -> (r: Result<(), String>) {
        if same(name, "name") {
            check::<String>(v)
        } else if same(name, "image") {
            check::<String>(v)
        } else if same(name, "restartPolicy") {
            check::<Option<String>>(v)
        } else if same(name, "securityContext") {
            check::<SecurityContext>(v)
        } else if same(name, "volumeMounts") {
            check::<Vec<VolumeMount>>(v)
        } else if same(name, "env") {
            check::<Vec<EnvVar>>(v)
        } else if same(name, "envFrom") {
            check::<Vec<EnvFromSource>>(v)
        } else if same(name, "resources") {
            check::<Resources>(v)
        } else {
            Ok(())
        }
    }
}

impl Readable for Container {
    open spec fn fault(t: Tree) -> Option<Seq<char>> {
        let f = t.record_fault("struct Container"@);
        let f = json::first_fault(f, json::members_fault::<Container>(t));
        let f = json::first_fault(f, json::field_fault::<String>(t, "name"@, 0));
        let f = json::first_fault(f, json::field_fault::<String>(t, "image"@, 1));
        let f = json::first_fault(f, json::field_fault::<Option<String>>(t, "restartPolicy"@, 2));
        let f = json::first_fault(f, json::field_fault::<SecurityContext>(t, "securityContext"@, 3));
        let f = json::first_fault(f, json::field_fault::<Vec<VolumeMount>>(t, "volumeMounts"@, 4));
        let f = json::first_fault(f, json::field_fault::<Vec<EnvVar>>(t, "env"@, 5));
        let f = json::first_fault(f, json::field_fault::<Vec<EnvFromSource>>(t, "envFrom"@, 6));
        let f = json::first_fault(f, json::field_fault::<Resources>(t, "resources"@, 7));
        json::first_fault(f, t.surplus_fault(8))
    }

    open spec fn value(t: Tree) -> ContainerModel {
        ContainerModel {
            name: json::field_value::<String>(t, "name"@, 0),
            image: json::field_value::<String>(t, "image"@, 1),
            restart_policy: json::field_value::<Option<String>>(t, "restartPolicy"@, 2),
            security_context: json::field_value::<SecurityContext>(t, "securityContext"@, 3),
            volume_mounts: json::field_value::<Vec<VolumeMount>>(t, "volumeMounts"@, 4),
            env: json::field_value::<Vec<EnvVar>>(t, "env"@, 5),
            env_from: json::field_value::<Vec<EnvFromSource>>(t, "envFrom"@, 6),
            resources: json::field_value::<Resources>(t, "resources"@, 7),
        }
    }

    open spec fn nothing() -> ContainerModel {
        ContainerModel {
            name: Seq::empty(),
            image: Seq::empty(),
            restart_policy: None,
            security_context: SecurityContext::nothing(),
            volume_mounts: Seq::empty(),
            env: Seq::empty(),
            env_from: Seq::empty(),
            resources: Resources::nothing(),
        }
    }

    fn read(j: &Json) -> (r: Result<Self, String>) {
        if let Err(e) = j.check_record("struct Container") {
            return Err(e);
        }
        if let Err(e) = check_members::<Container>(j) {
            return Err(e);
        }
        let name: String = match read_field(j, "name", 0) {
            Ok(x) => x,
            Err(e) => return Err(e),
        };
        let image: String = match read_field(j, "image", 1) {
            Ok(x) => x,
            Err(e) => return Err(e),
        };
        let restart_policy: Option<String> = match read_field(j, "restartPolicy", 2) {
            Ok(x) => x,
            Err(e) => return Err(e),
        };
        let security_context: SecurityContext = match read_field(j, "securityContext", 3) {
            Ok(x) => x,
            Err(e) => return Err(e),
        };
        let volume_mounts: Vec<VolumeMount> = match read_field(j, "volumeMounts", 4) {
            Ok(x) => x,
            Err(e) => return Err(e),
        };
        let env: Vec<EnvVar> = match read_field(j, "env", 5) {
            Ok(x) => x,
            Err(e) => return Err(e),
        };
        let env_from: Vec<EnvFromSource> = match read_field(j, "envFrom", 6) {
            Ok(x) => x,
            Err(e) => return Err(e),
        };
        let resources: Resources = match read_field(j, "resources", 7) {
            Ok(x) => x,
            Err(e) => return Err(e),
        };
        if let Err(e) = j.check_surplus(8) {
            return Err(e);
        }
        Ok(Container {
            name,
            image,
            restart_policy,
            security_context,
            volume_mounts,
            env,
            env_from,
            resources,
        })
    }

    fn absent() -> (r: Self) {
        Container::default()
    }
}

/// What a container asks the scheduler for.
#[derive(Debug, Clone, PartialEq, Eq)]
pub struct Resources {
    pub requests: ResourceList,
}

/// What a [`Resources`] says.
#[verifier::ext_equal]
pub struct ResourcesModel {
    pub requests: ResourceListModel,
}

impl DeepView for Resources {
    type V = ResourcesModel;

    open spec fn deep_view(&self) -> ResourcesModel {
        ResourcesModel {
            requests: self.requests.deep_view(),
        }
    }
}

impl Default for Resources {
    fn default() -> (r: Resources)
        ensures
            r.deep_view() == Resources::nothing(),
    {
        let r = Resources {
            requests: ResourceList::default(),
        };
        r
    }
}

impl Members for Resources {
    open spec fn member_fault(name: Seq<char>, v: Tree) -> Option<Seq<char>> {
        if name == "requests"@ {
            ResourceList::fault(v)
        } else {
            None
        }
    }

    fn check_member(name: &str, v: &Json) -> (r: Result<(), String>) {
        if same(name, "requests") {
            check::<ResourceList>(v)
        } else {
            Ok(())
        }
    }
}

impl Readable for Resources {
    open spec fn fault(t: Tree) -> Option<Seq<char>> {
        let f = t.record_fault("struct Resources"@);
        let f = json::first_fault(f, json::members_fault::<Resources>(t));
        let f = json::first_fault(f, json::field_fault::<ResourceList>(t, "requests"@, 0));
        json::first_fault(f, t.surplus_fault(1))
    }

    open spec fn value(t: Tree) -> ResourcesModel {
        ResourcesModel {
            requests: json::field_value::<ResourceList>(t, "requests"@, 0),
        }
    }

    open spec fn nothing() -> ResourcesModel {
        ResourcesModel {
            requests: ResourceList::nothing(),
        }
    }

    fn read(j: &Json) -> (r: Result<Self, String>) {
        if let Err(e) = j.check_record("struct Resources") {
            return Err(e);
        }
        if let Err(e) = check_members::<Resources>(j) {
            return Err(e);
        }
        let requests: ResourceList = match read_field(j, "requests", 0) {
            Ok(x) => x,
            Err(e) => return Err(e),
        };
        if let Err(e) = j.check_surplus(1) {
            return Err(e);
        }
        Ok(Resources { requests })
    }

    fn absent() -> (r: Self) {
        Resources::default()
    }
}

/// Quantities, as they are written.
#[derive(Debug, Clone, PartialEq, Eq)]
pub struct ResourceList {
    pub cpu: Option<String>,
    pub memory: Option<String>,
}

/// What a [`ResourceList`] says.
#[verifier::ext_equal]
pub struct ResourceListModel {
    pub cpu: Option<Seq<char>>,
    pub memory: Option<Seq<char>>,
}

impl DeepView for ResourceList {
    type V = ResourceListModel;

    open spec fn deep_view(&self) -> ResourceListModel {
        ResourceListModel {
            cpu: self.cpu.deep_view(),
            memory: self.memory.deep_view(),
        }
    }
}

impl Default for ResourceList {
    fn default() -> (r: ResourceList)
        ensures
            r.deep_view() == ResourceList::nothing(),
    {
        let r = ResourceList {
            cpu: None,
            memory: None,
        };
        r
    }
}

impl Members for ResourceList {
    open spec fn member_fault(name: Seq<char>, v: Tree) -> Option<Seq<char>> {
        if name == "cpu"@ {
            <Option<String> as Readable>::fault(v)
        } else if name == "memory"@ {
            <Option<String> as Readable>::fault(v)
        } else {
            None
        }
    }

    fn check_member(name: &str, v: &Json) -> (r: Result<(), String>) {
        if same(name, "cpu") {
            check::<Option<String>>(v)
        } else if same(name, "memory") {
            check::<Option<String>>(v)
        } else {
            Ok(())
        }
    }
}

impl Readable for ResourceList {
    open spec fn fault(t: Tree) -> Option<Seq<char>> {
        let f = t.record_fault("struct ResourceList"@);
        let f = json::first_fault(f, json::members_fault::<ResourceList>(t));
        let f = json::first_fault(f, json::field_fault::<Option<String>>(t, "cpu"@, 0));
        let f = json::first_fault(f, json::field_fault::<Option<String>>(t, "memory"@, 1));
        json::first_fault(f, t.surplus_fault(2))
    }

    open spec fn value(t: Tree) -> ResourceListModel {
        ResourceListModel {
            cpu: json::field_value::<Option<String>>(t, "cpu"@, 0),
            memory: json::field_value::<Option<String>>(t, "memory"@, 1),
        }
    }

    open spec fn nothing() -> ResourceListModel {
        ResourceListModel {
            cpu: None,
            memory: None,
        }
    }

    fn read(j: &Json) -> (r: Result<Self, String>) {
        if let Err(e) = j.check_record("struct ResourceList") {
            return Err(e);
        }
        if let Err(e) = check_members::<ResourceList>(j) {
            return Err(e);
        }
        let cpu: Option<String> = match read_field(j, "cpu", 0) {
            Ok(x) => x,
            Err(e) => return Err(e),
        };
        let memory: Option<String> = match read_field(j, "memory", 1) {
            Ok(x) => x,
            Err(e) => return Err(e),
        };
        if let Err(e) = j.check_surplus(2) {
            return Err(e);
        }
        Ok(ResourceList { cpu, memory })
    }

    fn absent() -> (r: Self) {
        ResourceList::default()
    }
}

/// A container's security context.
#[derive(Debug, Clone, PartialEq, Eq)]
pub struct SecurityContext {
    pub privileged: Option<bool>,
    pub allow_privilege_escalation: Option<bool>,
    pub read_only_root_filesystem: Option<bool>,
    pub run_as_user: Option<i64>,
    pub capabilities: Capabilities,
}

/// What a [`SecurityContext`] says.
#[verifier::ext_equal]
pub struct SecurityContextModel {
    pub privileged: Option<bool>,
    pub allow_privilege_escalation: Option<bool>,
    pub read_only_root_filesystem: Option<bool>,
    pub run_as_user: Option<i64>,
    pub capabilities: CapabilitiesModel,
}

impl DeepView for SecurityContext {
    type V = SecurityContextModel;

    open spec fn deep_view(&self) -> SecurityContextModel {
        SecurityContextModel {
            privileged: self.privileged.deep_view(),
            allow_privilege_escalation: self.allow_privilege_escalation.deep_view(),
            read_only_root_filesystem: self.read_only_root_filesystem.deep_view(),
            run_as_user: self.run_as_user.deep_view(),
            capabilities: self.capabilities.deep_view(),
        }
    }
}

impl Default for SecurityContext {
    fn default() -> (r: SecurityContext)
        ensures
            r.deep_view() == SecurityContext::nothing(),
    {
        let r = SecurityContext {
            privileged: None,
            allow_privilege_escalation: None,
            read_only_root_filesystem: None,
            run_as_user: None,
            capabilities: Capabilities::default(),
        };
        r
    }
}

impl Members for SecurityContext {
    open spec fn member_fault(name: Seq<char>, v: Tree) -> Option<Seq<char>> {
        if name == "privileged"@ {
            <Option<bool> as Readable>::fault(v)
        } else if name == "allowPrivilegeEscalation"@ {
            <Option<bool> as Readable>::fault(v)
        } else if name == "readOnlyRootFilesystem"@ {
            <Option<bool> as Readable>::fault(v)
        } else if name == "runAsUser"@ {
            <Option<i64> as Readable>::fault(v)
        } else if name == "capabilities"@ {
            Capabilities::fault(v)
        } else {
            None
        }
    }

    fn check_member(name: &str, v: &Json) -> (r: Result<(), String>) {
        if same(name, "privileged") {
            check::<Option<bool>>(v)
        } else if same(name, "allowPrivilegeEscalation") {
            check::<Option<bool>>(v)
        } else if same(name, "readOnlyRootFilesystem") {
            check::<Option<bool>>(v)
        } else if same(name, "runAsUser") {
            check::<Option<i64>>(v)
        } else if same(name, "capabilities") {
            check::<Capabilities>(v)
        } else {
            Ok(())
        }
    }
}

impl Readable for SecurityContext {
    open spec fn fault(t: Tree) -> Option<Seq<char>> {
        let f = t.record_fault("struct SecurityContext"@);
        let f = json::first_fault(f, json::members_fault::<SecurityContext>(t));
        let f = json::first_fault(f, json::field_fault::<Option<bool>>(t, "privileged"@, 0));
        let f = json::first_fault(f, json::field_fault::<Option<bool>>(t, "allowPrivilegeEscalation"@, 1));
        let f = json::first_fault(f, json::field_fault::<Option<bool>>(t, "readOnlyRootFilesystem"@, 2));
        let f = json::first_fault(f, json::field_fault::<Option<i64>>(t, "runAsUser"@, 3));
        let f = json::first_fault(f, json::field_fault::<Capabilities>(t, "capabilities"@, 4));
        json::first_fault(f, t.surplus_fault(5))
    }

    open spec fn value(t: Tree) -> SecurityContextModel {
        SecurityContextModel {
            privileged: json::field_value::<Option<bool>>(t, "privileged"@, 0),
            allow_privilege_escalation: json::field_value::<Option<bool>>(t, "allowPrivilegeEscalation"@, 1),
            read_only_root_filesystem: json::field_value::<Option<bool>>(t, "readOnlyRootFilesystem"@, 2),
            run_as_user: json::field_value::<Option<i64>>(t, "runAsUser"@, 3),
            capabilities: json::field_value::<Capabilities>(t, "capabilities"@, 4),
        }
    }

    open spec fn nothing() -> SecurityContextModel {
        SecurityContextModel {
            privileged: None,
            allow_privilege_escalation: None,
            read_only_root_filesystem: None,
            run_as_user: None,
            capabilities: Capabilities::nothing(),
        }
    }

    fn read(j: &Json) -> (r: Result<Self, String>) {
        if let Err(e) = j.check_record("struct SecurityContext") {
            return Err(e);
        }
        if let Err(e) = check_members::<SecurityContext>(j) {
            return Err(e);
        }
        let privileged: Option<bool> = match read_field(j, "privileged", 0) {
            Ok(x) => x,
            Err(e) => return Err(e),
        };
        let allow_privilege_escalation: Option<bool> = match read_field(j, "allowPrivilegeEscalation", 1) {
            Ok(x) => x,
            Err(e) => return Err(e),
        };
        let read_only_root_filesystem: Option<bool> = match read_field(j, "readOnlyRootFilesystem", 2) {
            Ok(x) => x,
            Err(e) => return Err(e),
        };
        let run_as_user: Option<i64> = match read_field(j, "runAsUser", 3) {
            Ok(x) => x,
            Err(e) => return Err(e),
        };
        let capabilities: Capabilities = match read_field(j, "capabilities", 4) {
            Ok(x) => x,
            Err(e) => return Err(e),
        };
        if let Err(e) = j.check_surplus(5) {
            return Err(e);
        }
        Ok(SecurityContext {
            privileged,
            allow_privilege_escalation,
            read_only_root_filesystem,
            run_as_user,
            capabilities,
        })
    }

    fn absent() -> (r: Self) {
        SecurityContext::default()
    }
}

/// Linux capabilities beyond, and below, the default set.
#[derive(Debug, Clone, PartialEq, Eq)]
pub struct Capabilities {
    pub add: Vec<String>,
    pub drop: Vec<String>,
}

/// What a [`Capabilities`] says.
#[verifier::ext_equal]
pub struct CapabilitiesModel {
    pub add: Seq<Seq<char>>,
    pub drop: Seq<Seq<char>>,
}

impl DeepView for Capabilities {
    type V = CapabilitiesModel;

    open spec fn deep_view(&self) -> CapabilitiesModel {
        CapabilitiesModel {
            add: self.add.deep_view(),
            drop: self.drop.deep_view(),
        }
    }
}

impl Default for Capabilities {
    fn default() -> (r: Capabilities)
        ensures
            r.deep_view() == Capabilities::nothing(),
    {
        let r = Capabilities {
            add: Vec::new(),
            drop: Vec::new(),
        };
        assert(r.add.deep_view() =~= Seq::empty());
        assert(r.drop.deep_view() =~= Seq::empty());
        r
    }
}

impl Members for Capabilities {
    open spec fn member_fault(name: Seq<char>, v: Tree) -> Option<Seq<char>> {
        if name == "add"@ {
            <Vec<String> as Readable>::fault(v)
        } else if name == "drop"@ {
            <Vec<String> as Readable>::fault(v)
        } else {
            None
        }
    }

    fn check_member(name: &str, v: &Json) -> (r: Result<(), String>) {
        if same(name, "add") {
            check::<Vec<String>>(v)
        } else if same(name, "drop") {
            check::<Vec<String>>(v)
        } else {
            Ok(())
        }
    }
}

impl Readable for Capabilities {
    open spec fn fault(t: Tree) -> Option<Seq<char>> {
        let f = t.record_fault("struct Capabilities"@);
        let f = json::first_fault(f, json::members_fault::<Capabilities>(t));
        let f = json::first_fault(f, json::field_fault::<Vec<String>>(t, "add"@, 0));
        let f = json::first_fault(f, json::field_fault::<Vec<String>>(t, "drop"@, 1));
        json::first_fault(f, t.surplus_fault(2))
    }

    open spec fn value(t: Tree) -> CapabilitiesModel {
        CapabilitiesModel {
            add: json::field_value::<Vec<String>>(t, "add"@, 0),
            drop: json::field_value::<Vec<String>>(t, "drop"@, 1),
        }
    }

    open spec fn nothing() -> CapabilitiesModel {
        CapabilitiesModel {
            add: Seq::empty(),
            drop: Seq::empty(),
        }
    }

    fn read(j: &Json) -> (r: Result<Self, String>) {
        if let Err(e) = j.check_record("struct Capabilities") {
            return Err(e);
        }
        if let Err(e) = check_members::<Capabilities>(j) {
            return Err(e);
        }
        let add: Vec<String> = match read_field(j, "add", 0) {
            Ok(x) => x,
            Err(e) => return Err(e),
        };
        let drop: Vec<String> = match read_field(j, "drop", 1) {
            Ok(x) => x,
            Err(e) => return Err(e),
        };
        if let Err(e) = j.check_surplus(2) {
            return Err(e);
        }
        Ok(Capabilities { add, drop })
    }

    fn absent() -> (r: Self) {
        Capabilities::default()
    }
}

/// One volume of a pod.
#[derive(Debug, Clone, PartialEq, Eq)]
pub struct Volume {
    pub name: String,
    pub host_path: Option<HostPathVolume>,
    pub secret: Option<SecretVolume>,
    pub projected: Option<ProjectedVolume>,
}

/// What a [`Volume`] says.
#[verifier::ext_equal]
pub struct VolumeModel {
    pub name: Seq<char>,
    pub host_path: Option<HostPathVolumeModel>,
    pub secret: Option<SecretVolumeModel>,
    pub projected: Option<ProjectedVolumeModel>,
}

impl DeepView for Volume {
    type V = VolumeModel;

    open spec fn deep_view(&self) -> VolumeModel {
        VolumeModel {
            name: self.name.deep_view(),
            host_path: self.host_path.deep_view(),
            secret: self.secret.deep_view(),
            projected: self.projected.deep_view(),
        }
    }
}

impl Default for Volume {
    fn default() -> (r: Volume)
        ensures
            r.deep_view() == Volume::nothing(),
    {
        let r = Volume {
            name: String::new(),
            host_path: None,
            secret: None,
            projected: None,
        };
        r
    }
}

impl Members for Volume {
    open spec fn member_fault(name: Seq<char>, v: Tree) -> Option<Seq<char>> {
        if name == "name"@ {
            String::fault(v)
        } else if name == "hostPath"@ {
            <Option<HostPathVolume> as Readable>::fault(v)
        } else if name == "secret"@ {
            <Option<SecretVolume> as Readable>::fault(v)
        } else if name == "projected"@ {
            <Option<ProjectedVolume> as Readable>::fault(v)
        } else {
            None
        }
    }

    fn check_member(name: &str, v: &Json) -> (r: Result<(), String>) {
        if same(name, "name") {
            check::<String>(v)
        } else if same(name, "hostPath") {
            check::<Option<HostPathVolume>>(v)
        } else if same(name, "secret") {
            check::<Option<SecretVolume>>(v)
        } else if same(name, "projected") {
            check::<Option<ProjectedVolume>>(v)
        } else {
            Ok(())
        }
    }
}

impl Readable for Volume {
    open spec fn fault(t: Tree) -> Option<Seq<char>> {
        let f = t.record_fault("struct Volume"@);
        let f = json::first_fault(f, json::members_fault::<Volume>(t));
        let f = json::first_fault(f, json::field_fault::<String>(t, "name"@, 0));
        let f = json::first_fault(f, json::field_fault::<Option<HostPathVolume>>(t, "hostPath"@, 1));
        let f = json::first_fault(f, json::field_fault::<Option<SecretVolume>>(t, "secret"@, 2));
        let f = json::first_fault(f, json::field_fault::<Option<ProjectedVolume>>(t, "projected"@, 3));
        json::first_fault(f, t.surplus_fault(4))
    }

    open spec fn value(t: Tree) -> VolumeModel {
        VolumeModel {
            name: json::field_value::<String>(t, "name"@, 0),
            host_path: json::field_value::<Option<HostPathVolume>>(t, "hostPath"@, 1),
            secret: json::field_value::<Option<SecretVolume>>(t, "secret"@, 2),
            projected: json::field_value::<Option<ProjectedVolume>>(t, "projected"@, 3),
        }
    }

    open spec fn nothing() -> VolumeModel {
        VolumeModel {
            name: Seq::empty(),
            host_path: None,
            secret: None,
            projected: None,
        }
    }

    fn read(j: &Json) -> (r: Result<Self, String>) {
        if let Err(e) = j.check_record("struct Volume") {
            return Err(e);
        }
        if let Err(e) = check_members::<Volume>(j) {
            return Err(e);
        }
        let name: String = match read_field(j, "name", 0) {
            Ok(x) => x,
            Err(e) => return Err(e),
        };
        let host_path: Option<HostPathVolume> = match read_field(j, "hostPath", 1) {
            Ok(x) => x,
            Err(e) => return Err(e),
        };
        let secret: Option<SecretVolume> = match read_field(j, "secret", 2) {
            Ok(x) => x,
            Err(e) => return Err(e),
        };
        let projected: Option<ProjectedVolume> = match read_field(j, "projected", 3) {
            Ok(x) => x,
            Err(e) => return Err(e),
        };
        if let Err(e) = j.check_surplus(4) {
            return Err(e);
        }
        Ok(Volume { name, host_path, secret, projected })
    }

    fn absent() -> (r: Self) {
        Volume::default()
    }
}

/// A path on the node.
#[derive(Debug, Clone, PartialEq, Eq)]
pub struct HostPathVolume {
    pub path: String,
    /// The `type` of the path.
    pub kind: Option<String>,
}

/// What a [`HostPathVolume`] says.
#[verifier::ext_equal]
pub struct HostPathVolumeModel {
    pub path: Seq<char>,
    pub kind: Option<Seq<char>>,
}

impl DeepView for HostPathVolume {
    type V = HostPathVolumeModel;

    open spec fn deep_view(&self) -> HostPathVolumeModel {
        HostPathVolumeModel {
            path: self.path.deep_view(),
            kind: self.kind.deep_view(),
        }
    }
}

impl Default for HostPathVolume {
    fn default() -> (r: HostPathVolume)
        ensures
            r.deep_view() == HostPathVolume::nothing(),
    {
        let r = HostPathVolume {
            path: String::new(),
            kind: None,
        };
        r
    }
}

impl Members for HostPathVolume {
    open spec fn member_fault(name: Seq<char>, v: Tree) -> Option<Seq<char>> {
        if name == "path"@ {
            String::fault(v)
        } else if name == "type"@ {
            <Option<String> as Readable>::fault(v)
        } else {
            None
        }
    }

    fn check_member(name: &str, v: &Json) -> (r: Result<(), String>) {
        if same(name, "path") {
            check::<String>(v)
        } else if same(name, "type") {
            check::<Option<String>>(v)
        } else {
            Ok(())
        }
    }
}

impl Readable for HostPathVolume {
    open spec fn fault(t: Tree) -> Option<Seq<char>> {
        let f = t.record_fault("struct HostPathVolume"@);
        let f = json::first_fault(f, json::members_fault::<HostPathVolume>(t));
        let f = json::first_fault(f, json::field_fault::<String>(t, "path"@, 0));
        let f = json::first_fault(f, json::field_fault::<Option<String>>(t, "type"@, 1));
        json::first_fault(f, t.surplus_fault(2))
    }

    open spec fn value(t: Tree) -> HostPathVolumeModel {
        HostPathVolumeModel {
            path: json::field_value::<String>(t, "path"@, 0),
            kind: json::field_value::<Option<String>>(t, "type"@, 1),
        }
    }

    open spec fn nothing() -> HostPathVolumeModel {
        HostPathVolumeModel {
            path: Seq::empty(),
            kind: None,
        }
    }

    fn read(j: &Json) -> (r: Result<Self, String>) {
        if let Err(e) = j.check_record("struct HostPathVolume") {
            return Err(e);
        }
        if let Err(e) = check_members::<HostPathVolume>(j) {
            return Err(e);
        }
        let path: String = match read_field(j, "path", 0) {
            Ok(x) => x,
            Err(e) => return Err(e),
        };
        let kind: Option<String> = match read_field(j, "type", 1) {
            Ok(x) => x,
            Err(e) => return Err(e),
        };
        if let Err(e) = j.check_surplus(2) {
            return Err(e);
        }
        Ok(HostPathVolume { path, kind })
    }

    fn absent() -> (r: Self) {
        HostPathVolume::default()
    }
}

/// A Secret, as a volume.
#[derive(Debug, Clone, PartialEq, Eq)]
pub struct SecretVolume {
    pub secret_name: String,
}

/// What a [`SecretVolume`] says.
#[verifier::ext_equal]
pub struct SecretVolumeModel {
    pub secret_name: Seq<char>,
}

impl DeepView for SecretVolume {
    type V = SecretVolumeModel;

    open spec fn deep_view(&self) -> SecretVolumeModel {
        SecretVolumeModel {
            secret_name: self.secret_name.deep_view(),
        }
    }
}

impl Default for SecretVolume {
    fn default() -> (r: SecretVolume)
        ensures
            r.deep_view() == SecretVolume::nothing(),
    {
        let r = SecretVolume {
            secret_name: String::new(),
        };
        r
    }
}

impl Members for SecretVolume {
    open spec fn member_fault(name: Seq<char>, v: Tree) -> Option<Seq<char>> {
        if name == "secretName"@ {
            String::fault(v)
        } else {
            None
        }
    }

    fn check_member(name: &str, v: &Json) -> (r: Result<(), String>) {
        if same(name, "secretName") {
            check::<String>(v)
        } else {
            Ok(())
        }
    }
}

impl Readable for SecretVolume {
    open spec fn fault(t: Tree) -> Option<Seq<char>> {
        let f = t.record_fault("struct SecretVolume"@);
        let f = json::first_fault(f, json::members_fault::<SecretVolume>(t));
        let f = json::first_fault(f, json::field_fault::<String>(t, "secretName"@, 0));
        json::first_fault(f, t.surplus_fault(1))
    }

    open spec fn value(t: Tree) -> SecretVolumeModel {
        SecretVolumeModel {
            secret_name: json::field_value::<String>(t, "secretName"@, 0),
        }
    }

    open spec fn nothing() -> SecretVolumeModel {
        SecretVolumeModel {
            secret_name: Seq::empty(),
        }
    }

    fn read(j: &Json) -> (r: Result<Self, String>) {
        if let Err(e) = j.check_record("struct SecretVolume") {
            return Err(e);
        }
        if let Err(e) = check_members::<SecretVolume>(j) {
            return Err(e);
        }
        let secret_name: String = match read_field(j, "secretName", 0) {
            Ok(x) => x,
            Err(e) => return Err(e),
        };
        if let Err(e) = j.check_surplus(1) {
            return Err(e);
        }
        Ok(SecretVolume { secret_name })
    }

    fn absent() -> (r: Self) {
        SecretVolume::default()
    }
}

/// Several sources in one volume, Secrets among them.
#[derive(Debug, Clone, PartialEq, Eq)]
pub struct ProjectedVolume {
    pub sources: Vec<ProjectedSource>,
}

/// What a [`ProjectedVolume`] says.
#[verifier::ext_equal]
pub struct ProjectedVolumeModel {
    pub sources: Seq<ProjectedSourceModel>,
}

impl DeepView for ProjectedVolume {
    type V = ProjectedVolumeModel;

    open spec fn deep_view(&self) -> ProjectedVolumeModel {
        ProjectedVolumeModel {
            sources: self.sources.deep_view(),
        }
    }
}

impl Default for ProjectedVolume {
    fn default() -> (r: ProjectedVolume)
        ensures
            r.deep_view() == ProjectedVolume::nothing(),
    {
        let r = ProjectedVolume {
            sources: Vec::new(),
        };
        assert(r.sources.deep_view() =~= Seq::empty());
        r
    }
}

impl Members for ProjectedVolume {
    open spec fn member_fault(name: Seq<char>, v: Tree) -> Option<Seq<char>> {
        if name == "sources"@ {
            <Vec<ProjectedSource> as Readable>::fault(v)
        } else {
            None
        }
    }

    fn check_member(name: &str, v: &Json) -> (r: Result<(), String>) {
        if same(name, "sources") {
            check::<Vec<ProjectedSource>>(v)
        } else {
            Ok(())
        }
    }
}

impl Readable for ProjectedVolume {
    open spec fn fault(t: Tree) -> Option<Seq<char>> {
        let f = t.record_fault("struct ProjectedVolume"@);
        let f = json::first_fault(f, json::members_fault::<ProjectedVolume>(t));
        let f = json::first_fault(f, json::field_fault::<Vec<ProjectedSource>>(t, "sources"@, 0));
        json::first_fault(f, t.surplus_fault(1))
    }

    open spec fn value(t: Tree) -> ProjectedVolumeModel {
        ProjectedVolumeModel {
            sources: json::field_value::<Vec<ProjectedSource>>(t, "sources"@, 0),
        }
    }

    open spec fn nothing() -> ProjectedVolumeModel {
        ProjectedVolumeModel {
            sources: Seq::empty(),
        }
    }

    fn read(j: &Json) -> (r: Result<Self, String>) {
        if let Err(e) = j.check_record("struct ProjectedVolume") {
            return Err(e);
        }
        if let Err(e) = check_members::<ProjectedVolume>(j) {
            return Err(e);
        }
        let sources: Vec<ProjectedSource> = match read_field(j, "sources", 0) {
            Ok(x) => x,
            Err(e) => return Err(e),
        };
        if let Err(e) = j.check_surplus(1) {
            return Err(e);
        }
        Ok(ProjectedVolume { sources })
    }

    fn absent() -> (r: Self) {
        ProjectedVolume::default()
    }
}

/// One source of a projected volume.
#[derive(Debug, Clone, PartialEq, Eq)]
pub struct ProjectedSource {
    pub secret: Option<SecretVolume>,
}

/// What a [`ProjectedSource`] says.
#[verifier::ext_equal]
pub struct ProjectedSourceModel {
    pub secret: Option<SecretVolumeModel>,
}

impl DeepView for ProjectedSource {
    type V = ProjectedSourceModel;

    open spec fn deep_view(&self) -> ProjectedSourceModel {
        ProjectedSourceModel {
            secret: self.secret.deep_view(),
        }
    }
}

impl Default for ProjectedSource {
    fn default() -> (r: ProjectedSource)
        ensures
            r.deep_view() == ProjectedSource::nothing(),
    {
        let r = ProjectedSource {
            secret: None,
        };
        r
    }
}

impl Members for ProjectedSource {
    open spec fn member_fault(name: Seq<char>, v: Tree) -> Option<Seq<char>> {
        if name == "secret"@ {
            <Option<SecretVolume> as Readable>::fault(v)
        } else {
            None
        }
    }

    fn check_member(name: &str, v: &Json) -> (r: Result<(), String>) {
        if same(name, "secret") {
            check::<Option<SecretVolume>>(v)
        } else {
            Ok(())
        }
    }
}

impl Readable for ProjectedSource {
    open spec fn fault(t: Tree) -> Option<Seq<char>> {
        let f = t.record_fault("struct ProjectedSource"@);
        let f = json::first_fault(f, json::members_fault::<ProjectedSource>(t));
        let f = json::first_fault(f, json::field_fault::<Option<SecretVolume>>(t, "secret"@, 0));
        json::first_fault(f, t.surplus_fault(1))
    }

    open spec fn value(t: Tree) -> ProjectedSourceModel {
        ProjectedSourceModel {
            secret: json::field_value::<Option<SecretVolume>>(t, "secret"@, 0),
        }
    }

    open spec fn nothing() -> ProjectedSourceModel {
        ProjectedSourceModel {
            secret: None,
        }
    }

    fn read(j: &Json) -> (r: Result<Self, String>) {
        if let Err(e) = j.check_record("struct ProjectedSource") {
            return Err(e);
        }
        if let Err(e) = check_members::<ProjectedSource>(j) {
            return Err(e);
        }
        let secret: Option<SecretVolume> = match read_field(j, "secret", 0) {
            Ok(x) => x,
            Err(e) => return Err(e),
        };
        if let Err(e) = j.check_surplus(1) {
            return Err(e);
        }
        Ok(ProjectedSource { secret })
    }

    fn absent() -> (r: Self) {
        ProjectedSource::default()
    }
}

/// A volume, mounted into a container.
#[derive(Debug, Clone, PartialEq, Eq)]
pub struct VolumeMount {
    pub name: String,
    pub mount_path: String,
    /// Absent means writable, which is Kubernetes' default.
    pub read_only: Option<bool>,
}

/// What a [`VolumeMount`] says.
#[verifier::ext_equal]
pub struct VolumeMountModel {
    pub name: Seq<char>,
    pub mount_path: Seq<char>,
    pub read_only: Option<bool>,
}

impl DeepView for VolumeMount {
    type V = VolumeMountModel;

    open spec fn deep_view(&self) -> VolumeMountModel {
        VolumeMountModel {
            name: self.name.deep_view(),
            mount_path: self.mount_path.deep_view(),
            read_only: self.read_only.deep_view(),
        }
    }
}

impl Default for VolumeMount {
    fn default() -> (r: VolumeMount)
        ensures
            r.deep_view() == VolumeMount::nothing(),
    {
        let r = VolumeMount {
            name: String::new(),
            mount_path: String::new(),
            read_only: None,
        };
        r
    }
}

impl Members for VolumeMount {
    open spec fn member_fault(name: Seq<char>, v: Tree) -> Option<Seq<char>> {
        if name == "name"@ {
            String::fault(v)
        } else if name == "mountPath"@ {
            String::fault(v)
        } else if name == "readOnly"@ {
            <Option<bool> as Readable>::fault(v)
        } else {
            None
        }
    }

    fn check_member(name: &str, v: &Json) -> (r: Result<(), String>) {
        if same(name, "name") {
            check::<String>(v)
        } else if same(name, "mountPath") {
            check::<String>(v)
        } else if same(name, "readOnly") {
            check::<Option<bool>>(v)
        } else {
            Ok(())
        }
    }
}

impl Readable for VolumeMount {
    open spec fn fault(t: Tree) -> Option<Seq<char>> {
        let f = t.record_fault("struct VolumeMount"@);
        let f = json::first_fault(f, json::members_fault::<VolumeMount>(t));
        let f = json::first_fault(f, json::field_fault::<String>(t, "name"@, 0));
        let f = json::first_fault(f, json::field_fault::<String>(t, "mountPath"@, 1));
        let f = json::first_fault(f, json::field_fault::<Option<bool>>(t, "readOnly"@, 2));
        json::first_fault(f, t.surplus_fault(3))
    }

    open spec fn value(t: Tree) -> VolumeMountModel {
        VolumeMountModel {
            name: json::field_value::<String>(t, "name"@, 0),
            mount_path: json::field_value::<String>(t, "mountPath"@, 1),
            read_only: json::field_value::<Option<bool>>(t, "readOnly"@, 2),
        }
    }

    open spec fn nothing() -> VolumeMountModel {
        VolumeMountModel {
            name: Seq::empty(),
            mount_path: Seq::empty(),
            read_only: None,
        }
    }

    fn read(j: &Json) -> (r: Result<Self, String>) {
        if let Err(e) = j.check_record("struct VolumeMount") {
            return Err(e);
        }
        if let Err(e) = check_members::<VolumeMount>(j) {
            return Err(e);
        }
        let name: String = match read_field(j, "name", 0) {
            Ok(x) => x,
            Err(e) => return Err(e),
        };
        let mount_path: String = match read_field(j, "mountPath", 1) {
            Ok(x) => x,
            Err(e) => return Err(e),
        };
        let read_only: Option<bool> = match read_field(j, "readOnly", 2) {
            Ok(x) => x,
            Err(e) => return Err(e),
        };
        if let Err(e) = j.check_surplus(3) {
            return Err(e);
        }
        Ok(VolumeMount { name, mount_path, read_only })
    }

    fn absent() -> (r: Self) {
        VolumeMount::default()
    }
}

/// One environment variable.
#[derive(Debug, Clone, PartialEq, Eq)]
pub struct EnvVar {
    pub name: String,
    pub value_from: Option<EnvVarSource>,
}

/// What an [`EnvVar`] says.
#[verifier::ext_equal]
pub struct EnvVarModel {
    pub name: Seq<char>,
    pub value_from: Option<EnvVarSourceModel>,
}

impl DeepView for EnvVar {
    type V = EnvVarModel;

    open spec fn deep_view(&self) -> EnvVarModel {
        EnvVarModel {
            name: self.name.deep_view(),
            value_from: self.value_from.deep_view(),
        }
    }
}

impl Default for EnvVar {
    fn default() -> (r: EnvVar)
        ensures
            r.deep_view() == EnvVar::nothing(),
    {
        let r = EnvVar {
            name: String::new(),
            value_from: None,
        };
        r
    }
}

impl Members for EnvVar {
    open spec fn member_fault(name: Seq<char>, v: Tree) -> Option<Seq<char>> {
        if name == "name"@ {
            String::fault(v)
        } else if name == "valueFrom"@ {
            <Option<EnvVarSource> as Readable>::fault(v)
        } else {
            None
        }
    }

    fn check_member(name: &str, v: &Json) -> (r: Result<(), String>) {
        if same(name, "name") {
            check::<String>(v)
        } else if same(name, "valueFrom") {
            check::<Option<EnvVarSource>>(v)
        } else {
            Ok(())
        }
    }
}

impl Readable for EnvVar {
    open spec fn fault(t: Tree) -> Option<Seq<char>> {
        let f = t.record_fault("struct EnvVar"@);
        let f = json::first_fault(f, json::members_fault::<EnvVar>(t));
        let f = json::first_fault(f, json::field_fault::<String>(t, "name"@, 0));
        let f = json::first_fault(f, json::field_fault::<Option<EnvVarSource>>(t, "valueFrom"@, 1));
        json::first_fault(f, t.surplus_fault(2))
    }

    open spec fn value(t: Tree) -> EnvVarModel {
        EnvVarModel {
            name: json::field_value::<String>(t, "name"@, 0),
            value_from: json::field_value::<Option<EnvVarSource>>(t, "valueFrom"@, 1),
        }
    }

    open spec fn nothing() -> EnvVarModel {
        EnvVarModel {
            name: Seq::empty(),
            value_from: None,
        }
    }

    fn read(j: &Json) -> (r: Result<Self, String>) {
        if let Err(e) = j.check_record("struct EnvVar") {
            return Err(e);
        }
        if let Err(e) = check_members::<EnvVar>(j) {
            return Err(e);
        }
        let name: String = match read_field(j, "name", 0) {
            Ok(x) => x,
            Err(e) => return Err(e),
        };
        let value_from: Option<EnvVarSource> = match read_field(j, "valueFrom", 1) {
            Ok(x) => x,
            Err(e) => return Err(e),
        };
        if let Err(e) = j.check_surplus(2) {
            return Err(e);
        }
        Ok(EnvVar { name, value_from })
    }

    fn absent() -> (r: Self) {
        EnvVar::default()
    }
}

/// Where a variable's value comes from.
#[derive(Debug, Clone, PartialEq, Eq)]
pub struct EnvVarSource {
    pub secret_key_ref: Option<SecretKeySelector>,
}

/// What an [`EnvVarSource`] says.
#[verifier::ext_equal]
pub struct EnvVarSourceModel {
    pub secret_key_ref: Option<SecretKeySelectorModel>,
}

impl DeepView for EnvVarSource {
    type V = EnvVarSourceModel;

    open spec fn deep_view(&self) -> EnvVarSourceModel {
        EnvVarSourceModel {
            secret_key_ref: self.secret_key_ref.deep_view(),
        }
    }
}

impl Default for EnvVarSource {
    fn default() -> (r: EnvVarSource)
        ensures
            r.deep_view() == EnvVarSource::nothing(),
    {
        let r = EnvVarSource {
            secret_key_ref: None,
        };
        r
    }
}

impl Members for EnvVarSource {
    open spec fn member_fault(name: Seq<char>, v: Tree) -> Option<Seq<char>> {
        if name == "secretKeyRef"@ {
            <Option<SecretKeySelector> as Readable>::fault(v)
        } else {
            None
        }
    }

    fn check_member(name: &str, v: &Json) -> (r: Result<(), String>) {
        if same(name, "secretKeyRef") {
            check::<Option<SecretKeySelector>>(v)
        } else {
            Ok(())
        }
    }
}

impl Readable for EnvVarSource {
    open spec fn fault(t: Tree) -> Option<Seq<char>> {
        let f = t.record_fault("struct EnvVarSource"@);
        let f = json::first_fault(f, json::members_fault::<EnvVarSource>(t));
        let f = json::first_fault(f, json::field_fault::<Option<SecretKeySelector>>(t, "secretKeyRef"@, 0));
        json::first_fault(f, t.surplus_fault(1))
    }

    open spec fn value(t: Tree) -> EnvVarSourceModel {
        EnvVarSourceModel {
            secret_key_ref: json::field_value::<Option<SecretKeySelector>>(t, "secretKeyRef"@, 0),
        }
    }

    open spec fn nothing() -> EnvVarSourceModel {
        EnvVarSourceModel {
            secret_key_ref: None,
        }
    }

    fn read(j: &Json) -> (r: Result<Self, String>) {
        if let Err(e) = j.check_record("struct EnvVarSource") {
            return Err(e);
        }
        if let Err(e) = check_members::<EnvVarSource>(j) {
            return Err(e);
        }
        let secret_key_ref: Option<SecretKeySelector> = match read_field(j, "secretKeyRef", 0) {
            Ok(x) => x,
            Err(e) => return Err(e),
        };
        if let Err(e) = j.check_surplus(1) {
            return Err(e);
        }
        Ok(EnvVarSource { secret_key_ref })
    }

    fn absent() -> (r: Self) {
        EnvVarSource::default()
    }
}

/// One key of a Secret.
#[derive(Debug, Clone, PartialEq, Eq)]
pub struct SecretKeySelector {
    pub name: String,
    pub key: String,
}

/// What a [`SecretKeySelector`] says.
#[verifier::ext_equal]
pub struct SecretKeySelectorModel {
    pub name: Seq<char>,
    pub key: Seq<char>,
}

impl DeepView for SecretKeySelector {
    type V = SecretKeySelectorModel;

    open spec fn deep_view(&self) -> SecretKeySelectorModel {
        SecretKeySelectorModel {
            name: self.name.deep_view(),
            key: self.key.deep_view(),
        }
    }
}

impl Default for SecretKeySelector {
    fn default() -> (r: SecretKeySelector)
        ensures
            r.deep_view() == SecretKeySelector::nothing(),
    {
        let r = SecretKeySelector {
            name: String::new(),
            key: String::new(),
        };
        r
    }
}

impl Members for SecretKeySelector {
    open spec fn member_fault(name: Seq<char>, v: Tree) -> Option<Seq<char>> {
        if name == "name"@ {
            String::fault(v)
        } else if name == "key"@ {
            String::fault(v)
        } else {
            None
        }
    }

    fn check_member(name: &str, v: &Json) -> (r: Result<(), String>) {
        if same(name, "name") {
            check::<String>(v)
        } else if same(name, "key") {
            check::<String>(v)
        } else {
            Ok(())
        }
    }
}

impl Readable for SecretKeySelector {
    open spec fn fault(t: Tree) -> Option<Seq<char>> {
        let f = t.record_fault("struct SecretKeySelector"@);
        let f = json::first_fault(f, json::members_fault::<SecretKeySelector>(t));
        let f = json::first_fault(f, json::field_fault::<String>(t, "name"@, 0));
        let f = json::first_fault(f, json::field_fault::<String>(t, "key"@, 1));
        json::first_fault(f, t.surplus_fault(2))
    }

    open spec fn value(t: Tree) -> SecretKeySelectorModel {
        SecretKeySelectorModel {
            name: json::field_value::<String>(t, "name"@, 0),
            key: json::field_value::<String>(t, "key"@, 1),
        }
    }

    open spec fn nothing() -> SecretKeySelectorModel {
        SecretKeySelectorModel {
            name: Seq::empty(),
            key: Seq::empty(),
        }
    }

    fn read(j: &Json) -> (r: Result<Self, String>) {
        if let Err(e) = j.check_record("struct SecretKeySelector") {
            return Err(e);
        }
        if let Err(e) = check_members::<SecretKeySelector>(j) {
            return Err(e);
        }
        let name: String = match read_field(j, "name", 0) {
            Ok(x) => x,
            Err(e) => return Err(e),
        };
        let key: String = match read_field(j, "key", 1) {
            Ok(x) => x,
            Err(e) => return Err(e),
        };
        if let Err(e) = j.check_surplus(2) {
            return Err(e);
        }
        Ok(SecretKeySelector { name, key })
    }

    fn absent() -> (r: Self) {
        SecretKeySelector::default()
    }
}

/// Where a set of variables comes from.
#[derive(Debug, Clone, PartialEq, Eq)]
pub struct EnvFromSource {
    pub secret_ref: Option<SecretEnvSource>,
}

/// What an [`EnvFromSource`] says.
#[verifier::ext_equal]
pub struct EnvFromSourceModel {
    pub secret_ref: Option<SecretEnvSourceModel>,
}

impl DeepView for EnvFromSource {
    type V = EnvFromSourceModel;

    open spec fn deep_view(&self) -> EnvFromSourceModel {
        EnvFromSourceModel {
            secret_ref: self.secret_ref.deep_view(),
        }
    }
}

impl Default for EnvFromSource {
    fn default() -> (r: EnvFromSource)
        ensures
            r.deep_view() == EnvFromSource::nothing(),
    {
        let r = EnvFromSource {
            secret_ref: None,
        };
        r
    }
}

impl Members for EnvFromSource {
    open spec fn member_fault(name: Seq<char>, v: Tree) -> Option<Seq<char>> {
        if name == "secretRef"@ {
            <Option<SecretEnvSource> as Readable>::fault(v)
        } else {
            None
        }
    }

    fn check_member(name: &str, v: &Json) -> (r: Result<(), String>) {
        if same(name, "secretRef") {
            check::<Option<SecretEnvSource>>(v)
        } else {
            Ok(())
        }
    }
}

impl Readable for EnvFromSource {
    open spec fn fault(t: Tree) -> Option<Seq<char>> {
        let f = t.record_fault("struct EnvFromSource"@);
        let f = json::first_fault(f, json::members_fault::<EnvFromSource>(t));
        let f = json::first_fault(f, json::field_fault::<Option<SecretEnvSource>>(t, "secretRef"@, 0));
        json::first_fault(f, t.surplus_fault(1))
    }

    open spec fn value(t: Tree) -> EnvFromSourceModel {
        EnvFromSourceModel {
            secret_ref: json::field_value::<Option<SecretEnvSource>>(t, "secretRef"@, 0),
        }
    }

    open spec fn nothing() -> EnvFromSourceModel {
        EnvFromSourceModel {
            secret_ref: None,
        }
    }

    fn read(j: &Json) -> (r: Result<Self, String>) {
        if let Err(e) = j.check_record("struct EnvFromSource") {
            return Err(e);
        }
        if let Err(e) = check_members::<EnvFromSource>(j) {
            return Err(e);
        }
        let secret_ref: Option<SecretEnvSource> = match read_field(j, "secretRef", 0) {
            Ok(x) => x,
            Err(e) => return Err(e),
        };
        if let Err(e) = j.check_surplus(1) {
            return Err(e);
        }
        Ok(EnvFromSource { secret_ref })
    }

    fn absent() -> (r: Self) {
        EnvFromSource::default()
    }
}

/// A whole Secret, as variables.
#[derive(Debug, Clone, PartialEq, Eq)]
pub struct SecretEnvSource {
    pub name: String,
}

/// What a [`SecretEnvSource`] says.
#[verifier::ext_equal]
pub struct SecretEnvSourceModel {
    pub name: Seq<char>,
}

impl DeepView for SecretEnvSource {
    type V = SecretEnvSourceModel;

    open spec fn deep_view(&self) -> SecretEnvSourceModel {
        SecretEnvSourceModel {
            name: self.name.deep_view(),
        }
    }
}

impl Default for SecretEnvSource {
    fn default() -> (r: SecretEnvSource)
        ensures
            r.deep_view() == SecretEnvSource::nothing(),
    {
        let r = SecretEnvSource {
            name: String::new(),
        };
        r
    }
}

impl Members for SecretEnvSource {
    open spec fn member_fault(name: Seq<char>, v: Tree) -> Option<Seq<char>> {
        if name == "name"@ {
            String::fault(v)
        } else {
            None
        }
    }

    fn check_member(name: &str, v: &Json) -> (r: Result<(), String>) {
        if same(name, "name") {
            check::<String>(v)
        } else {
            Ok(())
        }
    }
}

impl Readable for SecretEnvSource {
    open spec fn fault(t: Tree) -> Option<Seq<char>> {
        let f = t.record_fault("struct SecretEnvSource"@);
        let f = json::first_fault(f, json::members_fault::<SecretEnvSource>(t));
        let f = json::first_fault(f, json::field_fault::<String>(t, "name"@, 0));
        json::first_fault(f, t.surplus_fault(1))
    }

    open spec fn value(t: Tree) -> SecretEnvSourceModel {
        SecretEnvSourceModel {
            name: json::field_value::<String>(t, "name"@, 0),
        }
    }

    open spec fn nothing() -> SecretEnvSourceModel {
        SecretEnvSourceModel {
            name: Seq::empty(),
        }
    }

    fn read(j: &Json) -> (r: Result<Self, String>) {
        if let Err(e) = j.check_record("struct SecretEnvSource") {
            return Err(e);
        }
        if let Err(e) = check_members::<SecretEnvSource>(j) {
            return Err(e);
        }
        let name: String = match read_field(j, "name", 0) {
            Ok(x) => x,
            Err(e) => return Err(e),
        };
        if let Err(e) = j.check_surplus(1) {
            return Err(e);
        }
        Ok(SecretEnvSource { name })
    }

    fn absent() -> (r: Self) {
        SecretEnvSource::default()
    }
}

impl SpecErrorModel {
    /// The complaint in words.
    pub open spec fn message(self) -> Seq<char> {
        match self {
            SpecErrorModel::Json(e) => "spec is not valid JSON: "@ + e,
            SpecErrorModel::NotAPodSpec =>
                "not a PodSpec: no `containers` field. Kubernetes requires at least one container, so a document that omits it is truncated, a different resource kind, or not a pod — this wall will not admit what it cannot read"@,
            SpecErrorModel::Cost(e) => e.message(),
        }
    }
}

impl SpecError {
    pub fn to_text(&self) -> (r: String)
        ensures
            r@ == self.deep_view().message(),
    {
        match self {
            SpecError::Json(e) => {
                let mut m = owned("spec is not valid JSON: ");
                m.append(e.as_str());
                m
            },
            SpecError::NotAPodSpec => owned(
                "not a PodSpec: no `containers` field. Kubernetes requires at least one container, so a document that omits it is truncated, a different resource kind, or not a pod — this wall will not admit what it cannot read",
            ),
            SpecError::Cost(e) => e.to_text(),
        }
    }
}

/// The spec in a document: a whole pod nests it, a bare spec does not.
pub open spec fn spec_part(t: Tree) -> Tree {
    match t.member("spec"@) {
        Some(s) => s,
        None => t,
    }
}

/// The pod that a document says.
pub open spec fn pod_of(t: Tree) -> Result<PodSpecModel, SpecErrorModel> {
    let part = spec_part(t);
    if part.member("containers"@) is None {
        Err(SpecErrorModel::NotAPodSpec)
    } else {
        match PodSpec::fault(part) {
            Some(e) => Err(SpecErrorModel::Json(e)),
            None => Ok(PodSpec::value(part)),
        }
    }
}

/// The pod that a text says.
pub open spec fn pod_of_text(src: Seq<char>) -> Result<PodSpecModel, SpecErrorModel> {
    match json::parsed(src) {
        Ok(t) => pod_of(t),
        Err(e) => Err(SpecErrorModel::Json(e)),
    }
}

/// An init container that never stops.
pub open spec fn is_sidecar(c: ContainerModel) -> bool {
    c.restart_policy == Some("Always"@)
}

/// The containers of an init list that are sidecars, or those that are not, in order.
pub open spec fn init_part(cs: Seq<ContainerModel>, sidecars: bool) -> Seq<Placed>
    decreases cs.len(),
{
    if cs.len() == 0 {
        Seq::empty()
    } else {
        let before = init_part(cs.drop_last(), sidecars);
        if is_sidecar(cs.last()) == sidecars {
            before.push(
                (
                    if sidecars {
                        ContainerKind::Sidecar
                    } else {
                        ContainerKind::Init
                    },
                    cs.last(),
                ),
            )
        } else {
            before
        }
    }
}

/// The containers of a list, all in one role.
pub open spec fn in_role(cs: Seq<ContainerModel>, kind: ContainerKind) -> Seq<Placed> {
    Seq::new(cs.len(), |i: int| (kind, cs[i]))
}

impl PodSpecModel {
    /// Every container with the role it plays: init, sidecar, app, ephemeral.
    pub open spec fn placed(self) -> Seq<Placed> {
        init_part(self.init_containers, false) + init_part(self.init_containers, true) + in_role(
            self.containers,
            ContainerKind::App,
        ) + in_role(self.ephemeral_containers, ContainerKind::Ephemeral)
    }
}

/// The first volume of that name.
pub open spec fn first_named(vs: Seq<VolumeModel>, name: Seq<char>) -> Option<VolumeModel>
    decreases vs.len(),
{
    if vs.len() == 0 {
        None
    } else if vs[0].name == name {
        Some(vs[0])
    } else {
        first_named(vs.drop_first(), name)
    }
}

/// The init containers that are sidecars, or those that are not.
fn init_containers_of(cs: &Vec<Container>, sidecars: bool) -> (r: Vec<(ContainerKind, &Container)>)
    ensures
        r.deep_view() == init_part(cs.deep_view(), sidecars),
{
    let ghost all = cs.deep_view();
    let mut out: Vec<(ContainerKind, &Container)> = Vec::new();
    let mut i: usize = 0;
    assert(out.deep_view() =~= init_part(all.subrange(0, 0), sidecars));
    while i < cs.len()
        invariant
            i <= cs.len(),
            all == cs.deep_view(),
            out.deep_view() == init_part(all.subrange(0, i as int), sidecars),
        decreases cs.len() - i,
    {
        let ghost next = all.subrange(0, i + 1);
        assert(next.drop_last() =~= all.subrange(0, i as int));
        let c: &Container = &cs[i];
        assert(next.last() == c.deep_view());
        let always: bool = match &c.restart_policy {
            Some(p) => same(p.as_str(), "Always"),
            None => false,
        };
        if always == sidecars {
            let kind = if sidecars {
                ContainerKind::Sidecar
            } else {
                ContainerKind::Init
            };
            let ghost before = out.deep_view();
            out.push((kind, c));
            assert(out.deep_view() =~= before.push((kind, c.deep_view())));
        }
        i += 1;
    }
    assert(all.subrange(0, i as int) =~= all);
    out
}

/// The containers of a list, all in one role.
fn containers_in_role(cs: &Vec<Container>, kind: ContainerKind) -> (r: Vec<
    (ContainerKind, &Container),
>)
    ensures
        r.deep_view() == in_role(cs.deep_view(), kind),
{
    let mut out: Vec<(ContainerKind, &Container)> = Vec::new();
    let mut i: usize = 0;
    while i < cs.len()
        invariant
            i <= cs.len(),
            out@.len() == i,
            forall|k: int| 0 <= k < i ==> (#[trigger] out@[k]).deep_view() == (kind, cs@[k].deep_view()),
        decreases cs.len() - i,
    {
        out.push((kind, &cs[i]));
        i += 1;
    }
    assert(out.deep_view() =~= in_role(cs.deep_view(), kind));
    out
}

impl PodSpec {
    /// The pod that a document says: a bare spec, or a whole pod object.
    pub fn from_document(doc: &Json) -> (r: Result<PodSpec, SpecError>)
        ensures
            model::outcome(r) == pod_of(doc@),
    {
        let part: &Json = match doc.member("spec") {
            Some(s) => s,
            None => doc,
        };
        if part.member("containers").is_none() {
            return Err(SpecError::NotAPodSpec);
        }
        match PodSpec::read(part) {
            Ok(p) => Ok(p),
            Err(e) => Err(SpecError::Json(e)),
        }
    }

    /// Parse a pod spec.
    pub fn from_json(src: &str) -> (r: Result<PodSpec, SpecError>)
        ensures
            model::outcome(r) == pod_of_text(src@),
    {
        match Json::parse(src) {
            Ok(doc) => PodSpec::from_document(&doc),
            Err(e) => Err(SpecError::Json(e)),
        }
    }

    /// Every container, tagged with the role it plays, in the order in which they gain authority:
    /// init, sidecar, app, ephemeral.
    pub fn all_containers(&self) -> (r: Vec<(ContainerKind, &Container)>)
        ensures
            r.deep_view() == self.deep_view().placed(),
    {
        let mut out = init_containers_of(&self.init_containers, false);
        let mut sidecars = init_containers_of(&self.init_containers, true);
        let mut apps = containers_in_role(&self.containers, ContainerKind::App);
        let mut ephemeral = containers_in_role(
            &self.ephemeral_containers,
            ContainerKind::Ephemeral,
        );
        let ghost parts = out.deep_view() + sidecars.deep_view() + apps.deep_view()
            + ephemeral.deep_view();
        out.append(&mut sidecars);
        out.append(&mut apps);
        out.append(&mut ephemeral);
        assert(out.deep_view() =~= parts);
        out
    }

    /// The volume that a mount of that name refers to.
    pub fn volume(&self, name: &str) -> (r: Option<&Volume>)
        ensures
            r.deep_view() == first_named(self.deep_view().volumes, name@),
    {
        let ghost all = self.volumes.deep_view();
        let mut i: usize = 0;
        assert(all.subrange(0, all.len() as int) =~= all);
        while i < self.volumes.len()
            invariant
                i <= self.volumes.len(),
                all == self.volumes.deep_view(),
                first_named(all, name@) == first_named(
                    all.subrange(i as int, all.len() as int),
                    name@,
                ),
            decreases self.volumes.len() - i,
        {
            let ghost rest = all.subrange(i as int, all.len() as int);
            let v: &Volume = &self.volumes[i];
            assert(rest[0] == v.deep_view());
            if same(v.name.as_str(), name) {
                return Some(v);
            }
            assert(rest.drop_first() =~= all.subrange(i + 1, all.len() as int));
            i += 1;
        }
        None
    }
}

// ---------------------------------------------------------------------------------------------
// Laws
// ---------------------------------------------------------------------------------------------
proof fn init_part_holds(cs: Seq<ContainerModel>, sidecars: bool, k: ContainerKind, c: ContainerModel)
    ensures
        init_part(cs, sidecars).contains((k, c)) <==> cs.contains(c) && k == (if sidecars {
            ContainerKind::Sidecar
        } else {
            ContainerKind::Init
        }) && (c.restart_policy == Some("Always"@)) == sidecars,
        init_part(cs, true).len() + init_part(cs, false).len() == cs.len(),
    decreases cs.len(),
{
    if cs.len() > 0 {
        let before = init_part(cs.drop_last(), sidecars);
        let all = init_part(cs, sidecars);
        init_part_holds(cs.drop_last(), sidecars, k, c);
        assert(cs =~= cs.drop_last().push(cs.last()));
        if cs.contains(c) {
            let i = choose|i: int| 0 <= i < cs.len() && cs[i] == c;
            if i < cs.len() - 1 {
                assert(cs.drop_last()[i] == c);
            }
        }
        if cs.drop_last().contains(c) {
            let i = choose|i: int| 0 <= i < cs.drop_last().len() && cs.drop_last()[i] == c;
            assert(cs[i] == c);
        }
        if before.contains((k, c)) {
            let i = choose|i: int| 0 <= i < before.len() && before[i] == (k, c);
            assert(all[i] == (k, c));
        }
        if all.contains((k, c)) {
            let i = choose|i: int| 0 <= i < all.len() && all[i] == (k, c);
            if i < before.len() {
                assert(before[i] == (k, c));
            }
        }
        if is_sidecar(cs.last()) == sidecars {
            assert(all[all.len() - 1].1 == cs.last());
        }
        assert(cs[cs.len() - 1] == cs.last());
    }
}

/// Every container plays the role that the field it stands in gives it, and no other: an init
/// container that always restarts is a sidecar, any other is run once, and each container is placed
/// as often as it is declared.
pub proof fn every_container_has_its_role(p: PodSpecModel, k: ContainerKind, c: ContainerModel)
    ensures
        p.placed().contains((k, c)) <==> match k {
            ContainerKind::Init => p.init_containers.contains(c) && c.restart_policy != Some(
                "Always"@,
            ),
            ContainerKind::Sidecar => p.init_containers.contains(c) && c.restart_policy == Some(
                "Always"@,
            ),
            ContainerKind::App => p.containers.contains(c),
            ContainerKind::Ephemeral => p.ephemeral_containers.contains(c),
        },
        p.placed().len() == p.init_containers.len() + p.containers.len()
            + p.ephemeral_containers.len(),
{
    let a = init_part(p.init_containers, false);
    let b = init_part(p.init_containers, true);
    let d = in_role(p.containers, ContainerKind::App);
    let e = in_role(p.ephemeral_containers, ContainerKind::Ephemeral);
    let all = p.placed();
    init_part_holds(p.init_containers, false, k, c);
    init_part_holds(p.init_containers, true, k, c);
    if all.contains((k, c)) {
        let i = choose|i: int| 0 <= i < all.len() && all[i] == (k, c);
        if i < a.len() {
            assert(a[i] == (k, c));
        } else if i < a.len() + b.len() {
            assert(b[i - a.len()] == (k, c));
        } else if i < a.len() + b.len() + d.len() {
            assert(d[i - a.len() - b.len()] == (k, c));
            assert(p.containers[i - a.len() - b.len()] == c);
        } else {
            assert(e[i - a.len() - b.len() - d.len()] == (k, c));
            assert(p.ephemeral_containers[i - a.len() - b.len() - d.len()] == c);
        }
    }
    if a.contains((k, c)) {
        let i = choose|i: int| 0 <= i < a.len() && a[i] == (k, c);
        assert(all[i] == (k, c));
    }
    if b.contains((k, c)) {
        let i = choose|i: int| 0 <= i < b.len() && b[i] == (k, c);
        assert(all[a.len() + i] == (k, c));
    }
    if p.containers.contains(c) {
        let i = choose|i: int| 0 <= i < p.containers.len() && p.containers[i] == c;
        assert(all[a.len() + b.len() + i] == (ContainerKind::App, c));
    }
    if p.ephemeral_containers.contains(c) {
        let i = choose|i: int|
            0 <= i < p.ephemeral_containers.len() && p.ephemeral_containers[i] == c;
        assert(all[a.len() + b.len() + d.len() + i] == (ContainerKind::Ephemeral, c));
    }
}

/// A volume is found by its name, the first where several have it, and not found where none does.
pub proof fn a_volume_is_found_by_name(vs: Seq<VolumeModel>, name: Seq<char>)
    ensures
        first_named(vs, name) is None <==> forall|i: int|
            0 <= i < vs.len() ==> (#[trigger] vs[i]).name != name,
        first_named(vs, name) matches Some(v) ==> v.name == name && exists|i: int|
            0 <= i < vs.len() && #[trigger] vs[i] == v && forall|j: int|
                0 <= j < i ==> (#[trigger] vs[j]).name != name,
    decreases vs.len(),
{
    if vs.len() > 0 && vs[0].name != name {
        let rest = vs.drop_first();
        a_volume_is_found_by_name(rest, name);
        assert forall|i: int| 0 <= i < vs.len() && i > 0 implies #[trigger] vs[i] == rest[i - 1] by {}
        assert forall|i: int| 0 <= i < rest.len() implies #[trigger] rest[i] == vs[i + 1] by {}
        if let Some(v) = first_named(rest, name) {
            let i = choose|i: int|
                0 <= i < rest.len() && #[trigger] rest[i] == v && forall|j: int|
                    0 <= j < i ==> (#[trigger] rest[j]).name != name;
            assert(vs[i + 1] == v);
            assert forall|j: int| 0 <= j < i + 1 implies (#[trigger] vs[j]).name != name by {
                if j > 0 {
                    assert(rest[j - 1].name != name);
                }
            }
        }
    } else if vs.len() > 0 {
        assert(vs[0] == first_named(vs, name)->0);
    }
}

/// A whole object and its bare spec read alike, and a document without containers is no pod spec.
pub proof fn a_whole_object_is_read_by_its_spec(t: Tree, inner: Tree)
    ensures
        t.member("spec"@) == Some(inner) && inner.member("spec"@) is None ==> pod_of(t) == pod_of(
            inner,
        ),
        t.member("spec"@) is None && t.member("containers"@) is None ==> pod_of(t)
            == Err::<PodSpecModel, SpecErrorModel>(SpecErrorModel::NotAPodSpec),
        t.member("spec"@) is None && t.member("containers"@) is Some && PodSpec::fault(t) is None
            ==> pod_of(t) == Ok::<PodSpecModel, SpecErrorModel>(PodSpec::value(t)),
{
}

/// A pod spec is read field by field: each from the member of its name or the item of its place, and left
/// empty where there is neither.
pub proof fn a_pod_spec_is_read_field_by_field(
    members: Seq<(Seq<char>, Tree)>,
    items: Seq<Tree>,
    i: int,
)
    requires
        json::are_distinct(members),
    ensures
        0 <= i < members.len() && members[i].0 == "hostNetwork"@ ==> PodSpec::value(Tree::Object(members)).host_network
            == bool::value(members[i].1),
        !json::is_there(members, "hostNetwork"@) ==> PodSpec::value(Tree::Object(members)).host_network == bool::nothing(),
        items.len() > 0 ==> PodSpec::value(Tree::List(items)).host_network == bool::value(items[0]),
        0 <= i < members.len() && members[i].0 == "hostPID"@ ==> PodSpec::value(Tree::Object(members)).host_pid
            == bool::value(members[i].1),
        !json::is_there(members, "hostPID"@) ==> PodSpec::value(Tree::Object(members)).host_pid == bool::nothing(),
        items.len() > 1 ==> PodSpec::value(Tree::List(items)).host_pid == bool::value(items[1]),
        0 <= i < members.len() && members[i].0 == "hostIPC"@ ==> PodSpec::value(Tree::Object(members)).host_ipc
            == bool::value(members[i].1),
        !json::is_there(members, "hostIPC"@) ==> PodSpec::value(Tree::Object(members)).host_ipc == bool::nothing(),
        items.len() > 2 ==> PodSpec::value(Tree::List(items)).host_ipc == bool::value(items[2]),
        0 <= i < members.len() && members[i].0 == "serviceAccountName"@ ==> PodSpec::value(Tree::Object(members)).service_account_name
            == String::value(members[i].1),
        !json::is_there(members, "serviceAccountName"@) ==> PodSpec::value(Tree::Object(members)).service_account_name == String::nothing(),
        items.len() > 3 ==> PodSpec::value(Tree::List(items)).service_account_name == String::value(items[3]),
        0 <= i < members.len() && members[i].0 == "volumes"@ ==> PodSpec::value(Tree::Object(members)).volumes
            == <Vec<Volume> as Readable>::value(members[i].1),
        !json::is_there(members, "volumes"@) ==> PodSpec::value(Tree::Object(members)).volumes == <Vec<Volume> as Readable>::nothing(),
        items.len() > 4 ==> PodSpec::value(Tree::List(items)).volumes == <Vec<Volume> as Readable>::value(items[4]),
        0 <= i < members.len() && members[i].0 == "securityContext"@ ==> PodSpec::value(Tree::Object(members)).security_context
            == PodSecurityContext::value(members[i].1),
        !json::is_there(members, "securityContext"@) ==> PodSpec::value(Tree::Object(members)).security_context == PodSecurityContext::nothing(),
        items.len() > 5 ==> PodSpec::value(Tree::List(items)).security_context == PodSecurityContext::value(items[5]),
        0 <= i < members.len() && members[i].0 == "containers"@ ==> PodSpec::value(Tree::Object(members)).containers
            == <Vec<Container> as Readable>::value(members[i].1),
        !json::is_there(members, "containers"@) ==> PodSpec::value(Tree::Object(members)).containers == <Vec<Container> as Readable>::nothing(),
        items.len() > 6 ==> PodSpec::value(Tree::List(items)).containers == <Vec<Container> as Readable>::value(items[6]),
        0 <= i < members.len() && members[i].0 == "initContainers"@ ==> PodSpec::value(Tree::Object(members)).init_containers
            == <Vec<Container> as Readable>::value(members[i].1),
        !json::is_there(members, "initContainers"@) ==> PodSpec::value(Tree::Object(members)).init_containers == <Vec<Container> as Readable>::nothing(),
        items.len() > 7 ==> PodSpec::value(Tree::List(items)).init_containers == <Vec<Container> as Readable>::value(items[7]),
        0 <= i < members.len() && members[i].0 == "ephemeralContainers"@ ==> PodSpec::value(Tree::Object(members)).ephemeral_containers
            == <Vec<Container> as Readable>::value(members[i].1),
        !json::is_there(members, "ephemeralContainers"@) ==> PodSpec::value(Tree::Object(members)).ephemeral_containers == <Vec<Container> as Readable>::nothing(),
        items.len() > 8 ==> PodSpec::value(Tree::List(items)).ephemeral_containers == <Vec<Container> as Readable>::value(items[8]),
{
    json::a_field_is_read_by_name_or_place::<bool>(members, items, i, "hostNetwork"@, 0);
    json::a_field_is_read_by_name_or_place::<bool>(members, items, i, "hostPID"@, 1);
    json::a_field_is_read_by_name_or_place::<bool>(members, items, i, "hostIPC"@, 2);
    json::a_field_is_read_by_name_or_place::<String>(members, items, i, "serviceAccountName"@, 3);
    json::a_field_is_read_by_name_or_place::<Vec<Volume>>(members, items, i, "volumes"@, 4);
    json::a_field_is_read_by_name_or_place::<PodSecurityContext>(members, items, i, "securityContext"@, 5);
    json::a_field_is_read_by_name_or_place::<Vec<Container>>(members, items, i, "containers"@, 6);
    json::a_field_is_read_by_name_or_place::<Vec<Container>>(members, items, i, "initContainers"@, 7);
    json::a_field_is_read_by_name_or_place::<Vec<Container>>(members, items, i, "ephemeralContainers"@, 8);
}

/// A pod spec is read wherever each of its members can be and none that it needs is missing.
pub proof fn a_pod_spec_is_read_where_its_members_are(members: Seq<(Seq<char>, Tree)>)
    requires
        json::are_distinct(members),
        forall|j: int|
            0 <= j < members.len() && (#[trigger] members[j]).0 == "hostNetwork"@ ==> bool::fault(members[j].1) is None,
        forall|j: int|
            0 <= j < members.len() && (#[trigger] members[j]).0 == "hostPID"@ ==> bool::fault(members[j].1) is None,
        forall|j: int|
            0 <= j < members.len() && (#[trigger] members[j]).0 == "hostIPC"@ ==> bool::fault(members[j].1) is None,
        forall|j: int|
            0 <= j < members.len() && (#[trigger] members[j]).0 == "serviceAccountName"@ ==> String::fault(members[j].1) is None,
        forall|j: int|
            0 <= j < members.len() && (#[trigger] members[j]).0 == "volumes"@ ==> <Vec<Volume> as Readable>::fault(members[j].1) is None,
        forall|j: int|
            0 <= j < members.len() && (#[trigger] members[j]).0 == "securityContext"@ ==> PodSecurityContext::fault(members[j].1) is None,
        forall|j: int|
            0 <= j < members.len() && (#[trigger] members[j]).0 == "containers"@ ==> <Vec<Container> as Readable>::fault(members[j].1) is None,
        forall|j: int|
            0 <= j < members.len() && (#[trigger] members[j]).0 == "initContainers"@ ==> <Vec<Container> as Readable>::fault(members[j].1) is None,
        forall|j: int|
            0 <= j < members.len() && (#[trigger] members[j]).0 == "ephemeralContainers"@ ==> <Vec<Container> as Readable>::fault(members[j].1) is None,
        json::is_there(members, "containers"@),
    ensures
        PodSpec::fault(Tree::Object(members)) is None,
{
    assert forall|j: int| 0 <= j < members.len() implies PodSpec::member_fault(
        (#[trigger] members[j]).0,
        members[j].1,
    ) is None by {}
    json::members_are_read_where_each_is::<PodSpec>(members);
    assert(json::field_fault::<bool>(Tree::Object(members), "hostNetwork"@, 0) is None) by {
        json::a_member_is_found_by_name(members, "hostNetwork"@);
        if let Some(v) = json::lookup(members, "hostNetwork"@) {
            let j = choose|j: int| 0 <= j < members.len() && members[j] == ("hostNetwork"@, v);
            assert(members[j].0 == "hostNetwork"@);
        }
    }
    assert(json::field_fault::<bool>(Tree::Object(members), "hostPID"@, 1) is None) by {
        json::a_member_is_found_by_name(members, "hostPID"@);
        if let Some(v) = json::lookup(members, "hostPID"@) {
            let j = choose|j: int| 0 <= j < members.len() && members[j] == ("hostPID"@, v);
            assert(members[j].0 == "hostPID"@);
        }
    }
    assert(json::field_fault::<bool>(Tree::Object(members), "hostIPC"@, 2) is None) by {
        json::a_member_is_found_by_name(members, "hostIPC"@);
        if let Some(v) = json::lookup(members, "hostIPC"@) {
            let j = choose|j: int| 0 <= j < members.len() && members[j] == ("hostIPC"@, v);
            assert(members[j].0 == "hostIPC"@);
        }
    }
    assert(json::field_fault::<String>(Tree::Object(members), "serviceAccountName"@, 3) is None) by {
        json::a_member_is_found_by_name(members, "serviceAccountName"@);
        if let Some(v) = json::lookup(members, "serviceAccountName"@) {
            let j = choose|j: int| 0 <= j < members.len() && members[j] == ("serviceAccountName"@, v);
            assert(members[j].0 == "serviceAccountName"@);
        }
    }
    assert(json::field_fault::<Vec<Volume>>(Tree::Object(members), "volumes"@, 4) is None) by {
        json::a_member_is_found_by_name(members, "volumes"@);
        if let Some(v) = json::lookup(members, "volumes"@) {
            let j = choose|j: int| 0 <= j < members.len() && members[j] == ("volumes"@, v);
            assert(members[j].0 == "volumes"@);
        }
    }
    assert(json::field_fault::<PodSecurityContext>(Tree::Object(members), "securityContext"@, 5) is None) by {
        json::a_member_is_found_by_name(members, "securityContext"@);
        if let Some(v) = json::lookup(members, "securityContext"@) {
            let j = choose|j: int| 0 <= j < members.len() && members[j] == ("securityContext"@, v);
            assert(members[j].0 == "securityContext"@);
        }
    }
    assert(json::field_fault::<Vec<Container>>(Tree::Object(members), "containers"@, 6) is None) by {
        json::a_member_is_found_by_name(members, "containers"@);
        if let Some(v) = json::lookup(members, "containers"@) {
            let j = choose|j: int| 0 <= j < members.len() && members[j] == ("containers"@, v);
            assert(members[j].0 == "containers"@);
        }
    }
    assert(json::field_fault::<Vec<Container>>(Tree::Object(members), "initContainers"@, 7) is None) by {
        json::a_member_is_found_by_name(members, "initContainers"@);
        if let Some(v) = json::lookup(members, "initContainers"@) {
            let j = choose|j: int| 0 <= j < members.len() && members[j] == ("initContainers"@, v);
            assert(members[j].0 == "initContainers"@);
        }
    }
    assert(json::field_fault::<Vec<Container>>(Tree::Object(members), "ephemeralContainers"@, 8) is None) by {
        json::a_member_is_found_by_name(members, "ephemeralContainers"@);
        if let Some(v) = json::lookup(members, "ephemeralContainers"@) {
            let j = choose|j: int| 0 <= j < members.len() && members[j] == ("ephemeralContainers"@, v);
            assert(members[j].0 == "ephemeralContainers"@);
        }
    }
    json::a_member_is_found_by_name(members, "containers"@);
}

/// A pod spec is refused for any one member that cannot be read, and where one that it needs is missing.
pub proof fn a_pod_spec_is_refused_for_one_member(members: Seq<(Seq<char>, Tree)>, i: int)
    requires
        json::are_distinct(members),
    ensures
        0 <= i < members.len() && members[i].0 == "hostNetwork"@ && bool::fault(members[i].1) is Some
            ==> PodSpec::fault(Tree::Object(members)) is Some,
        0 <= i < members.len() && members[i].0 == "hostPID"@ && bool::fault(members[i].1) is Some
            ==> PodSpec::fault(Tree::Object(members)) is Some,
        0 <= i < members.len() && members[i].0 == "hostIPC"@ && bool::fault(members[i].1) is Some
            ==> PodSpec::fault(Tree::Object(members)) is Some,
        0 <= i < members.len() && members[i].0 == "serviceAccountName"@ && String::fault(members[i].1) is Some
            ==> PodSpec::fault(Tree::Object(members)) is Some,
        0 <= i < members.len() && members[i].0 == "volumes"@ && <Vec<Volume> as Readable>::fault(members[i].1) is Some
            ==> PodSpec::fault(Tree::Object(members)) is Some,
        0 <= i < members.len() && members[i].0 == "securityContext"@ && PodSecurityContext::fault(members[i].1) is Some
            ==> PodSpec::fault(Tree::Object(members)) is Some,
        0 <= i < members.len() && members[i].0 == "containers"@ && <Vec<Container> as Readable>::fault(members[i].1) is Some
            ==> PodSpec::fault(Tree::Object(members)) is Some,
        0 <= i < members.len() && members[i].0 == "initContainers"@ && <Vec<Container> as Readable>::fault(members[i].1) is Some
            ==> PodSpec::fault(Tree::Object(members)) is Some,
        0 <= i < members.len() && members[i].0 == "ephemeralContainers"@ && <Vec<Container> as Readable>::fault(members[i].1) is Some
            ==> PodSpec::fault(Tree::Object(members)) is Some,
        !json::is_there(members, "containers"@) ==> PodSpec::fault(Tree::Object(members)) is Some,
{
    json::a_field_is_read_by_name_or_place::<bool>(members, Seq::empty(), i, "hostNetwork"@, 0);
    json::a_field_is_read_by_name_or_place::<bool>(members, Seq::empty(), i, "hostPID"@, 1);
    json::a_field_is_read_by_name_or_place::<bool>(members, Seq::empty(), i, "hostIPC"@, 2);
    json::a_field_is_read_by_name_or_place::<String>(members, Seq::empty(), i, "serviceAccountName"@, 3);
    json::a_field_is_read_by_name_or_place::<Vec<Volume>>(members, Seq::empty(), i, "volumes"@, 4);
    json::a_field_is_read_by_name_or_place::<PodSecurityContext>(members, Seq::empty(), i, "securityContext"@, 5);
    json::a_field_is_read_by_name_or_place::<Vec<Container>>(members, Seq::empty(), i, "containers"@, 6);
    json::a_field_is_read_by_name_or_place::<Vec<Container>>(members, Seq::empty(), i, "initContainers"@, 7);
    json::a_field_is_read_by_name_or_place::<Vec<Container>>(members, Seq::empty(), i, "ephemeralContainers"@, 8);
    json::a_member_is_found_by_name(members, "containers"@);
}

/// A pod security context is read field by field: each from the member of its name or the item of its place, and left
/// empty where there is neither.
pub proof fn a_pod_security_context_is_read_field_by_field(
    members: Seq<(Seq<char>, Tree)>,
    items: Seq<Tree>,
    i: int,
)
    requires
        json::are_distinct(members),
    ensures
        0 <= i < members.len() && members[i].0 == "runAsUser"@ ==> PodSecurityContext::value(Tree::Object(members)).run_as_user
            == <Option<i64> as Readable>::value(members[i].1),
        !json::is_there(members, "runAsUser"@) ==> PodSecurityContext::value(Tree::Object(members)).run_as_user == <Option<i64> as Readable>::nothing(),
        items.len() > 0 ==> PodSecurityContext::value(Tree::List(items)).run_as_user == <Option<i64> as Readable>::value(items[0]),
        0 <= i < members.len() && members[i].0 == "runAsNonRoot"@ ==> PodSecurityContext::value(Tree::Object(members)).run_as_non_root
            == <Option<bool> as Readable>::value(members[i].1),
        !json::is_there(members, "runAsNonRoot"@) ==> PodSecurityContext::value(Tree::Object(members)).run_as_non_root == <Option<bool> as Readable>::nothing(),
        items.len() > 1 ==> PodSecurityContext::value(Tree::List(items)).run_as_non_root == <Option<bool> as Readable>::value(items[1]),
{
    json::a_field_is_read_by_name_or_place::<Option<i64>>(members, items, i, "runAsUser"@, 0);
    json::a_field_is_read_by_name_or_place::<Option<bool>>(members, items, i, "runAsNonRoot"@, 1);
}

/// A pod security context is read wherever each of its members can be.
pub proof fn a_pod_security_context_is_read_where_its_members_are(members: Seq<(Seq<char>, Tree)>)
    requires
        json::are_distinct(members),
        forall|j: int|
            0 <= j < members.len() && (#[trigger] members[j]).0 == "runAsUser"@ ==> <Option<i64> as Readable>::fault(members[j].1) is None,
        forall|j: int|
            0 <= j < members.len() && (#[trigger] members[j]).0 == "runAsNonRoot"@ ==> <Option<bool> as Readable>::fault(members[j].1) is None,
    ensures
        PodSecurityContext::fault(Tree::Object(members)) is None,
{
    assert forall|j: int| 0 <= j < members.len() implies PodSecurityContext::member_fault(
        (#[trigger] members[j]).0,
        members[j].1,
    ) is None by {}
    json::members_are_read_where_each_is::<PodSecurityContext>(members);
    assert(json::field_fault::<Option<i64>>(Tree::Object(members), "runAsUser"@, 0) is None) by {
        json::a_member_is_found_by_name(members, "runAsUser"@);
        if let Some(v) = json::lookup(members, "runAsUser"@) {
            let j = choose|j: int| 0 <= j < members.len() && members[j] == ("runAsUser"@, v);
            assert(members[j].0 == "runAsUser"@);
        }
    }
    assert(json::field_fault::<Option<bool>>(Tree::Object(members), "runAsNonRoot"@, 1) is None) by {
        json::a_member_is_found_by_name(members, "runAsNonRoot"@);
        if let Some(v) = json::lookup(members, "runAsNonRoot"@) {
            let j = choose|j: int| 0 <= j < members.len() && members[j] == ("runAsNonRoot"@, v);
            assert(members[j].0 == "runAsNonRoot"@);
        }
    }
}

/// A pod security context is refused for any one member that cannot be read.
pub proof fn a_pod_security_context_is_refused_for_one_member(members: Seq<(Seq<char>, Tree)>, i: int)
    requires
        json::are_distinct(members),
    ensures
        0 <= i < members.len() && members[i].0 == "runAsUser"@ && <Option<i64> as Readable>::fault(members[i].1) is Some
            ==> PodSecurityContext::fault(Tree::Object(members)) is Some,
        0 <= i < members.len() && members[i].0 == "runAsNonRoot"@ && <Option<bool> as Readable>::fault(members[i].1) is Some
            ==> PodSecurityContext::fault(Tree::Object(members)) is Some,
{
    json::a_field_is_read_by_name_or_place::<Option<i64>>(members, Seq::empty(), i, "runAsUser"@, 0);
    json::a_field_is_read_by_name_or_place::<Option<bool>>(members, Seq::empty(), i, "runAsNonRoot"@, 1);
}

/// A container is read field by field: each from the member of its name or the item of its place, and left
/// empty where there is neither.
pub proof fn a_container_is_read_field_by_field(
    members: Seq<(Seq<char>, Tree)>,
    items: Seq<Tree>,
    i: int,
)
    requires
        json::are_distinct(members),
    ensures
        0 <= i < members.len() && members[i].0 == "name"@ ==> Container::value(Tree::Object(members)).name
            == String::value(members[i].1),
        !json::is_there(members, "name"@) ==> Container::value(Tree::Object(members)).name == String::nothing(),
        items.len() > 0 ==> Container::value(Tree::List(items)).name == String::value(items[0]),
        0 <= i < members.len() && members[i].0 == "image"@ ==> Container::value(Tree::Object(members)).image
            == String::value(members[i].1),
        !json::is_there(members, "image"@) ==> Container::value(Tree::Object(members)).image == String::nothing(),
        items.len() > 1 ==> Container::value(Tree::List(items)).image == String::value(items[1]),
        0 <= i < members.len() && members[i].0 == "restartPolicy"@ ==> Container::value(Tree::Object(members)).restart_policy
            == <Option<String> as Readable>::value(members[i].1),
        !json::is_there(members, "restartPolicy"@) ==> Container::value(Tree::Object(members)).restart_policy == <Option<String> as Readable>::nothing(),
        items.len() > 2 ==> Container::value(Tree::List(items)).restart_policy == <Option<String> as Readable>::value(items[2]),
        0 <= i < members.len() && members[i].0 == "securityContext"@ ==> Container::value(Tree::Object(members)).security_context
            == SecurityContext::value(members[i].1),
        !json::is_there(members, "securityContext"@) ==> Container::value(Tree::Object(members)).security_context == SecurityContext::nothing(),
        items.len() > 3 ==> Container::value(Tree::List(items)).security_context == SecurityContext::value(items[3]),
        0 <= i < members.len() && members[i].0 == "volumeMounts"@ ==> Container::value(Tree::Object(members)).volume_mounts
            == <Vec<VolumeMount> as Readable>::value(members[i].1),
        !json::is_there(members, "volumeMounts"@) ==> Container::value(Tree::Object(members)).volume_mounts == <Vec<VolumeMount> as Readable>::nothing(),
        items.len() > 4 ==> Container::value(Tree::List(items)).volume_mounts == <Vec<VolumeMount> as Readable>::value(items[4]),
        0 <= i < members.len() && members[i].0 == "env"@ ==> Container::value(Tree::Object(members)).env
            == <Vec<EnvVar> as Readable>::value(members[i].1),
        !json::is_there(members, "env"@) ==> Container::value(Tree::Object(members)).env == <Vec<EnvVar> as Readable>::nothing(),
        items.len() > 5 ==> Container::value(Tree::List(items)).env == <Vec<EnvVar> as Readable>::value(items[5]),
        0 <= i < members.len() && members[i].0 == "envFrom"@ ==> Container::value(Tree::Object(members)).env_from
            == <Vec<EnvFromSource> as Readable>::value(members[i].1),
        !json::is_there(members, "envFrom"@) ==> Container::value(Tree::Object(members)).env_from == <Vec<EnvFromSource> as Readable>::nothing(),
        items.len() > 6 ==> Container::value(Tree::List(items)).env_from == <Vec<EnvFromSource> as Readable>::value(items[6]),
        0 <= i < members.len() && members[i].0 == "resources"@ ==> Container::value(Tree::Object(members)).resources
            == Resources::value(members[i].1),
        !json::is_there(members, "resources"@) ==> Container::value(Tree::Object(members)).resources == Resources::nothing(),
        items.len() > 7 ==> Container::value(Tree::List(items)).resources == Resources::value(items[7]),
{
    json::a_field_is_read_by_name_or_place::<String>(members, items, i, "name"@, 0);
    json::a_field_is_read_by_name_or_place::<String>(members, items, i, "image"@, 1);
    json::a_field_is_read_by_name_or_place::<Option<String>>(members, items, i, "restartPolicy"@, 2);
    json::a_field_is_read_by_name_or_place::<SecurityContext>(members, items, i, "securityContext"@, 3);
    json::a_field_is_read_by_name_or_place::<Vec<VolumeMount>>(members, items, i, "volumeMounts"@, 4);
    json::a_field_is_read_by_name_or_place::<Vec<EnvVar>>(members, items, i, "env"@, 5);
    json::a_field_is_read_by_name_or_place::<Vec<EnvFromSource>>(members, items, i, "envFrom"@, 6);
    json::a_field_is_read_by_name_or_place::<Resources>(members, items, i, "resources"@, 7);
}

/// A container is read wherever each of its members can be.
pub proof fn a_container_is_read_where_its_members_are(members: Seq<(Seq<char>, Tree)>)
    requires
        json::are_distinct(members),
        forall|j: int|
            0 <= j < members.len() && (#[trigger] members[j]).0 == "name"@ ==> String::fault(members[j].1) is None,
        forall|j: int|
            0 <= j < members.len() && (#[trigger] members[j]).0 == "image"@ ==> String::fault(members[j].1) is None,
        forall|j: int|
            0 <= j < members.len() && (#[trigger] members[j]).0 == "restartPolicy"@ ==> <Option<String> as Readable>::fault(members[j].1) is None,
        forall|j: int|
            0 <= j < members.len() && (#[trigger] members[j]).0 == "securityContext"@ ==> SecurityContext::fault(members[j].1) is None,
        forall|j: int|
            0 <= j < members.len() && (#[trigger] members[j]).0 == "volumeMounts"@ ==> <Vec<VolumeMount> as Readable>::fault(members[j].1) is None,
        forall|j: int|
            0 <= j < members.len() && (#[trigger] members[j]).0 == "env"@ ==> <Vec<EnvVar> as Readable>::fault(members[j].1) is None,
        forall|j: int|
            0 <= j < members.len() && (#[trigger] members[j]).0 == "envFrom"@ ==> <Vec<EnvFromSource> as Readable>::fault(members[j].1) is None,
        forall|j: int|
            0 <= j < members.len() && (#[trigger] members[j]).0 == "resources"@ ==> Resources::fault(members[j].1) is None,
    ensures
        Container::fault(Tree::Object(members)) is None,
{
    assert forall|j: int| 0 <= j < members.len() implies Container::member_fault(
        (#[trigger] members[j]).0,
        members[j].1,
    ) is None by {}
    json::members_are_read_where_each_is::<Container>(members);
    assert(json::field_fault::<String>(Tree::Object(members), "name"@, 0) is None) by {
        json::a_member_is_found_by_name(members, "name"@);
        if let Some(v) = json::lookup(members, "name"@) {
            let j = choose|j: int| 0 <= j < members.len() && members[j] == ("name"@, v);
            assert(members[j].0 == "name"@);
        }
    }
    assert(json::field_fault::<String>(Tree::Object(members), "image"@, 1) is None) by {
        json::a_member_is_found_by_name(members, "image"@);
        if let Some(v) = json::lookup(members, "image"@) {
            let j = choose|j: int| 0 <= j < members.len() && members[j] == ("image"@, v);
            assert(members[j].0 == "image"@);
        }
    }
    assert(json::field_fault::<Option<String>>(Tree::Object(members), "restartPolicy"@, 2) is None) by {
        json::a_member_is_found_by_name(members, "restartPolicy"@);
        if let Some(v) = json::lookup(members, "restartPolicy"@) {
            let j = choose|j: int| 0 <= j < members.len() && members[j] == ("restartPolicy"@, v);
            assert(members[j].0 == "restartPolicy"@);
        }
    }
    assert(json::field_fault::<SecurityContext>(Tree::Object(members), "securityContext"@, 3) is None) by {
        json::a_member_is_found_by_name(members, "securityContext"@);
        if let Some(v) = json::lookup(members, "securityContext"@) {
            let j = choose|j: int| 0 <= j < members.len() && members[j] == ("securityContext"@, v);
            assert(members[j].0 == "securityContext"@);
        }
    }
    assert(json::field_fault::<Vec<VolumeMount>>(Tree::Object(members), "volumeMounts"@, 4) is None) by {
        json::a_member_is_found_by_name(members, "volumeMounts"@);
        if let Some(v) = json::lookup(members, "volumeMounts"@) {
            let j = choose|j: int| 0 <= j < members.len() && members[j] == ("volumeMounts"@, v);
            assert(members[j].0 == "volumeMounts"@);
        }
    }
    assert(json::field_fault::<Vec<EnvVar>>(Tree::Object(members), "env"@, 5) is None) by {
        json::a_member_is_found_by_name(members, "env"@);
        if let Some(v) = json::lookup(members, "env"@) {
            let j = choose|j: int| 0 <= j < members.len() && members[j] == ("env"@, v);
            assert(members[j].0 == "env"@);
        }
    }
    assert(json::field_fault::<Vec<EnvFromSource>>(Tree::Object(members), "envFrom"@, 6) is None) by {
        json::a_member_is_found_by_name(members, "envFrom"@);
        if let Some(v) = json::lookup(members, "envFrom"@) {
            let j = choose|j: int| 0 <= j < members.len() && members[j] == ("envFrom"@, v);
            assert(members[j].0 == "envFrom"@);
        }
    }
    assert(json::field_fault::<Resources>(Tree::Object(members), "resources"@, 7) is None) by {
        json::a_member_is_found_by_name(members, "resources"@);
        if let Some(v) = json::lookup(members, "resources"@) {
            let j = choose|j: int| 0 <= j < members.len() && members[j] == ("resources"@, v);
            assert(members[j].0 == "resources"@);
        }
    }
}

/// A container is refused for any one member that cannot be read.
pub proof fn a_container_is_refused_for_one_member(members: Seq<(Seq<char>, Tree)>, i: int)
    requires
        json::are_distinct(members),
    ensures
        0 <= i < members.len() && members[i].0 == "name"@ && String::fault(members[i].1) is Some
            ==> Container::fault(Tree::Object(members)) is Some,
        0 <= i < members.len() && members[i].0 == "image"@ && String::fault(members[i].1) is Some
            ==> Container::fault(Tree::Object(members)) is Some,
        0 <= i < members.len() && members[i].0 == "restartPolicy"@ && <Option<String> as Readable>::fault(members[i].1) is Some
            ==> Container::fault(Tree::Object(members)) is Some,
        0 <= i < members.len() && members[i].0 == "securityContext"@ && SecurityContext::fault(members[i].1) is Some
            ==> Container::fault(Tree::Object(members)) is Some,
        0 <= i < members.len() && members[i].0 == "volumeMounts"@ && <Vec<VolumeMount> as Readable>::fault(members[i].1) is Some
            ==> Container::fault(Tree::Object(members)) is Some,
        0 <= i < members.len() && members[i].0 == "env"@ && <Vec<EnvVar> as Readable>::fault(members[i].1) is Some
            ==> Container::fault(Tree::Object(members)) is Some,
        0 <= i < members.len() && members[i].0 == "envFrom"@ && <Vec<EnvFromSource> as Readable>::fault(members[i].1) is Some
            ==> Container::fault(Tree::Object(members)) is Some,
        0 <= i < members.len() && members[i].0 == "resources"@ && Resources::fault(members[i].1) is Some
            ==> Container::fault(Tree::Object(members)) is Some,
{
    json::a_field_is_read_by_name_or_place::<String>(members, Seq::empty(), i, "name"@, 0);
    json::a_field_is_read_by_name_or_place::<String>(members, Seq::empty(), i, "image"@, 1);
    json::a_field_is_read_by_name_or_place::<Option<String>>(members, Seq::empty(), i, "restartPolicy"@, 2);
    json::a_field_is_read_by_name_or_place::<SecurityContext>(members, Seq::empty(), i, "securityContext"@, 3);
    json::a_field_is_read_by_name_or_place::<Vec<VolumeMount>>(members, Seq::empty(), i, "volumeMounts"@, 4);
    json::a_field_is_read_by_name_or_place::<Vec<EnvVar>>(members, Seq::empty(), i, "env"@, 5);
    json::a_field_is_read_by_name_or_place::<Vec<EnvFromSource>>(members, Seq::empty(), i, "envFrom"@, 6);
    json::a_field_is_read_by_name_or_place::<Resources>(members, Seq::empty(), i, "resources"@, 7);
}

/// A resources is read field by field: each from the member of its name or the item of its place, and left
/// empty where there is neither.
pub proof fn a_resources_is_read_field_by_field(
    members: Seq<(Seq<char>, Tree)>,
    items: Seq<Tree>,
    i: int,
)
    requires
        json::are_distinct(members),
    ensures
        0 <= i < members.len() && members[i].0 == "requests"@ ==> Resources::value(Tree::Object(members)).requests
            == ResourceList::value(members[i].1),
        !json::is_there(members, "requests"@) ==> Resources::value(Tree::Object(members)).requests == ResourceList::nothing(),
        items.len() > 0 ==> Resources::value(Tree::List(items)).requests == ResourceList::value(items[0]),
{
    json::a_field_is_read_by_name_or_place::<ResourceList>(members, items, i, "requests"@, 0);
}

/// A resources is read wherever each of its members can be.
pub proof fn a_resources_is_read_where_its_members_are(members: Seq<(Seq<char>, Tree)>)
    requires
        json::are_distinct(members),
        forall|j: int|
            0 <= j < members.len() && (#[trigger] members[j]).0 == "requests"@ ==> ResourceList::fault(members[j].1) is None,
    ensures
        Resources::fault(Tree::Object(members)) is None,
{
    assert forall|j: int| 0 <= j < members.len() implies Resources::member_fault(
        (#[trigger] members[j]).0,
        members[j].1,
    ) is None by {}
    json::members_are_read_where_each_is::<Resources>(members);
    assert(json::field_fault::<ResourceList>(Tree::Object(members), "requests"@, 0) is None) by {
        json::a_member_is_found_by_name(members, "requests"@);
        if let Some(v) = json::lookup(members, "requests"@) {
            let j = choose|j: int| 0 <= j < members.len() && members[j] == ("requests"@, v);
            assert(members[j].0 == "requests"@);
        }
    }
}

/// A resources is refused for any one member that cannot be read.
pub proof fn a_resources_is_refused_for_one_member(members: Seq<(Seq<char>, Tree)>, i: int)
    requires
        json::are_distinct(members),
    ensures
        0 <= i < members.len() && members[i].0 == "requests"@ && ResourceList::fault(members[i].1) is Some
            ==> Resources::fault(Tree::Object(members)) is Some,
{
    json::a_field_is_read_by_name_or_place::<ResourceList>(members, Seq::empty(), i, "requests"@, 0);
}

/// A resource list is read field by field: each from the member of its name or the item of its place, and left
/// empty where there is neither.
pub proof fn a_resource_list_is_read_field_by_field(
    members: Seq<(Seq<char>, Tree)>,
    items: Seq<Tree>,
    i: int,
)
    requires
        json::are_distinct(members),
    ensures
        0 <= i < members.len() && members[i].0 == "cpu"@ ==> ResourceList::value(Tree::Object(members)).cpu
            == <Option<String> as Readable>::value(members[i].1),
        !json::is_there(members, "cpu"@) ==> ResourceList::value(Tree::Object(members)).cpu == <Option<String> as Readable>::nothing(),
        items.len() > 0 ==> ResourceList::value(Tree::List(items)).cpu == <Option<String> as Readable>::value(items[0]),
        0 <= i < members.len() && members[i].0 == "memory"@ ==> ResourceList::value(Tree::Object(members)).memory
            == <Option<String> as Readable>::value(members[i].1),
        !json::is_there(members, "memory"@) ==> ResourceList::value(Tree::Object(members)).memory == <Option<String> as Readable>::nothing(),
        items.len() > 1 ==> ResourceList::value(Tree::List(items)).memory == <Option<String> as Readable>::value(items[1]),
{
    json::a_field_is_read_by_name_or_place::<Option<String>>(members, items, i, "cpu"@, 0);
    json::a_field_is_read_by_name_or_place::<Option<String>>(members, items, i, "memory"@, 1);
}

/// A resource list is read wherever each of its members can be.
pub proof fn a_resource_list_is_read_where_its_members_are(members: Seq<(Seq<char>, Tree)>)
    requires
        json::are_distinct(members),
        forall|j: int|
            0 <= j < members.len() && (#[trigger] members[j]).0 == "cpu"@ ==> <Option<String> as Readable>::fault(members[j].1) is None,
        forall|j: int|
            0 <= j < members.len() && (#[trigger] members[j]).0 == "memory"@ ==> <Option<String> as Readable>::fault(members[j].1) is None,
    ensures
        ResourceList::fault(Tree::Object(members)) is None,
{
    assert forall|j: int| 0 <= j < members.len() implies ResourceList::member_fault(
        (#[trigger] members[j]).0,
        members[j].1,
    ) is None by {}
    json::members_are_read_where_each_is::<ResourceList>(members);
    assert(json::field_fault::<Option<String>>(Tree::Object(members), "cpu"@, 0) is None) by {
        json::a_member_is_found_by_name(members, "cpu"@);
        if let Some(v) = json::lookup(members, "cpu"@) {
            let j = choose|j: int| 0 <= j < members.len() && members[j] == ("cpu"@, v);
            assert(members[j].0 == "cpu"@);
        }
    }
    assert(json::field_fault::<Option<String>>(Tree::Object(members), "memory"@, 1) is None) by {
        json::a_member_is_found_by_name(members, "memory"@);
        if let Some(v) = json::lookup(members, "memory"@) {
            let j = choose|j: int| 0 <= j < members.len() && members[j] == ("memory"@, v);
            assert(members[j].0 == "memory"@);
        }
    }
}

/// A resource list is refused for any one member that cannot be read.
pub proof fn a_resource_list_is_refused_for_one_member(members: Seq<(Seq<char>, Tree)>, i: int)
    requires
        json::are_distinct(members),
    ensures
        0 <= i < members.len() && members[i].0 == "cpu"@ && <Option<String> as Readable>::fault(members[i].1) is Some
            ==> ResourceList::fault(Tree::Object(members)) is Some,
        0 <= i < members.len() && members[i].0 == "memory"@ && <Option<String> as Readable>::fault(members[i].1) is Some
            ==> ResourceList::fault(Tree::Object(members)) is Some,
{
    json::a_field_is_read_by_name_or_place::<Option<String>>(members, Seq::empty(), i, "cpu"@, 0);
    json::a_field_is_read_by_name_or_place::<Option<String>>(members, Seq::empty(), i, "memory"@, 1);
}

/// A security context is read field by field: each from the member of its name or the item of its place, and left
/// empty where there is neither.
pub proof fn a_security_context_is_read_field_by_field(
    members: Seq<(Seq<char>, Tree)>,
    items: Seq<Tree>,
    i: int,
)
    requires
        json::are_distinct(members),
    ensures
        0 <= i < members.len() && members[i].0 == "privileged"@ ==> SecurityContext::value(Tree::Object(members)).privileged
            == <Option<bool> as Readable>::value(members[i].1),
        !json::is_there(members, "privileged"@) ==> SecurityContext::value(Tree::Object(members)).privileged == <Option<bool> as Readable>::nothing(),
        items.len() > 0 ==> SecurityContext::value(Tree::List(items)).privileged == <Option<bool> as Readable>::value(items[0]),
        0 <= i < members.len() && members[i].0 == "allowPrivilegeEscalation"@ ==> SecurityContext::value(Tree::Object(members)).allow_privilege_escalation
            == <Option<bool> as Readable>::value(members[i].1),
        !json::is_there(members, "allowPrivilegeEscalation"@) ==> SecurityContext::value(Tree::Object(members)).allow_privilege_escalation == <Option<bool> as Readable>::nothing(),
        items.len() > 1 ==> SecurityContext::value(Tree::List(items)).allow_privilege_escalation == <Option<bool> as Readable>::value(items[1]),
        0 <= i < members.len() && members[i].0 == "readOnlyRootFilesystem"@ ==> SecurityContext::value(Tree::Object(members)).read_only_root_filesystem
            == <Option<bool> as Readable>::value(members[i].1),
        !json::is_there(members, "readOnlyRootFilesystem"@) ==> SecurityContext::value(Tree::Object(members)).read_only_root_filesystem == <Option<bool> as Readable>::nothing(),
        items.len() > 2 ==> SecurityContext::value(Tree::List(items)).read_only_root_filesystem == <Option<bool> as Readable>::value(items[2]),
        0 <= i < members.len() && members[i].0 == "runAsUser"@ ==> SecurityContext::value(Tree::Object(members)).run_as_user
            == <Option<i64> as Readable>::value(members[i].1),
        !json::is_there(members, "runAsUser"@) ==> SecurityContext::value(Tree::Object(members)).run_as_user == <Option<i64> as Readable>::nothing(),
        items.len() > 3 ==> SecurityContext::value(Tree::List(items)).run_as_user == <Option<i64> as Readable>::value(items[3]),
        0 <= i < members.len() && members[i].0 == "capabilities"@ ==> SecurityContext::value(Tree::Object(members)).capabilities
            == Capabilities::value(members[i].1),
        !json::is_there(members, "capabilities"@) ==> SecurityContext::value(Tree::Object(members)).capabilities == Capabilities::nothing(),
        items.len() > 4 ==> SecurityContext::value(Tree::List(items)).capabilities == Capabilities::value(items[4]),
{
    json::a_field_is_read_by_name_or_place::<Option<bool>>(members, items, i, "privileged"@, 0);
    json::a_field_is_read_by_name_or_place::<Option<bool>>(members, items, i, "allowPrivilegeEscalation"@, 1);
    json::a_field_is_read_by_name_or_place::<Option<bool>>(members, items, i, "readOnlyRootFilesystem"@, 2);
    json::a_field_is_read_by_name_or_place::<Option<i64>>(members, items, i, "runAsUser"@, 3);
    json::a_field_is_read_by_name_or_place::<Capabilities>(members, items, i, "capabilities"@, 4);
}

/// A security context is read wherever each of its members can be.
pub proof fn a_security_context_is_read_where_its_members_are(members: Seq<(Seq<char>, Tree)>)
    requires
        json::are_distinct(members),
        forall|j: int|
            0 <= j < members.len() && (#[trigger] members[j]).0 == "privileged"@ ==> <Option<bool> as Readable>::fault(members[j].1) is None,
        forall|j: int|
            0 <= j < members.len() && (#[trigger] members[j]).0 == "allowPrivilegeEscalation"@ ==> <Option<bool> as Readable>::fault(members[j].1) is None,
        forall|j: int|
            0 <= j < members.len() && (#[trigger] members[j]).0 == "readOnlyRootFilesystem"@ ==> <Option<bool> as Readable>::fault(members[j].1) is None,
        forall|j: int|
            0 <= j < members.len() && (#[trigger] members[j]).0 == "runAsUser"@ ==> <Option<i64> as Readable>::fault(members[j].1) is None,
        forall|j: int|
            0 <= j < members.len() && (#[trigger] members[j]).0 == "capabilities"@ ==> Capabilities::fault(members[j].1) is None,
    ensures
        SecurityContext::fault(Tree::Object(members)) is None,
{
    assert forall|j: int| 0 <= j < members.len() implies SecurityContext::member_fault(
        (#[trigger] members[j]).0,
        members[j].1,
    ) is None by {}
    json::members_are_read_where_each_is::<SecurityContext>(members);
    assert(json::field_fault::<Option<bool>>(Tree::Object(members), "privileged"@, 0) is None) by {
        json::a_member_is_found_by_name(members, "privileged"@);
        if let Some(v) = json::lookup(members, "privileged"@) {
            let j = choose|j: int| 0 <= j < members.len() && members[j] == ("privileged"@, v);
            assert(members[j].0 == "privileged"@);
        }
    }
    assert(json::field_fault::<Option<bool>>(Tree::Object(members), "allowPrivilegeEscalation"@, 1) is None) by {
        json::a_member_is_found_by_name(members, "allowPrivilegeEscalation"@);
        if let Some(v) = json::lookup(members, "allowPrivilegeEscalation"@) {
            let j = choose|j: int| 0 <= j < members.len() && members[j] == ("allowPrivilegeEscalation"@, v);
            assert(members[j].0 == "allowPrivilegeEscalation"@);
        }
    }
    assert(json::field_fault::<Option<bool>>(Tree::Object(members), "readOnlyRootFilesystem"@, 2) is None) by {
        json::a_member_is_found_by_name(members, "readOnlyRootFilesystem"@);
        if let Some(v) = json::lookup(members, "readOnlyRootFilesystem"@) {
            let j = choose|j: int| 0 <= j < members.len() && members[j] == ("readOnlyRootFilesystem"@, v);
            assert(members[j].0 == "readOnlyRootFilesystem"@);
        }
    }
    assert(json::field_fault::<Option<i64>>(Tree::Object(members), "runAsUser"@, 3) is None) by {
        json::a_member_is_found_by_name(members, "runAsUser"@);
        if let Some(v) = json::lookup(members, "runAsUser"@) {
            let j = choose|j: int| 0 <= j < members.len() && members[j] == ("runAsUser"@, v);
            assert(members[j].0 == "runAsUser"@);
        }
    }
    assert(json::field_fault::<Capabilities>(Tree::Object(members), "capabilities"@, 4) is None) by {
        json::a_member_is_found_by_name(members, "capabilities"@);
        if let Some(v) = json::lookup(members, "capabilities"@) {
            let j = choose|j: int| 0 <= j < members.len() && members[j] == ("capabilities"@, v);
            assert(members[j].0 == "capabilities"@);
        }
    }
}

/// A security context is refused for any one member that cannot be read.
pub proof fn a_security_context_is_refused_for_one_member(members: Seq<(Seq<char>, Tree)>, i: int)
    requires
        json::are_distinct(members),
    ensures
        0 <= i < members.len() && members[i].0 == "privileged"@ && <Option<bool> as Readable>::fault(members[i].1) is Some
            ==> SecurityContext::fault(Tree::Object(members)) is Some,
        0 <= i < members.len() && members[i].0 == "allowPrivilegeEscalation"@ && <Option<bool> as Readable>::fault(members[i].1) is Some
            ==> SecurityContext::fault(Tree::Object(members)) is Some,
        0 <= i < members.len() && members[i].0 == "readOnlyRootFilesystem"@ && <Option<bool> as Readable>::fault(members[i].1) is Some
            ==> SecurityContext::fault(Tree::Object(members)) is Some,
        0 <= i < members.len() && members[i].0 == "runAsUser"@ && <Option<i64> as Readable>::fault(members[i].1) is Some
            ==> SecurityContext::fault(Tree::Object(members)) is Some,
        0 <= i < members.len() && members[i].0 == "capabilities"@ && Capabilities::fault(members[i].1) is Some
            ==> SecurityContext::fault(Tree::Object(members)) is Some,
{
    json::a_field_is_read_by_name_or_place::<Option<bool>>(members, Seq::empty(), i, "privileged"@, 0);
    json::a_field_is_read_by_name_or_place::<Option<bool>>(members, Seq::empty(), i, "allowPrivilegeEscalation"@, 1);
    json::a_field_is_read_by_name_or_place::<Option<bool>>(members, Seq::empty(), i, "readOnlyRootFilesystem"@, 2);
    json::a_field_is_read_by_name_or_place::<Option<i64>>(members, Seq::empty(), i, "runAsUser"@, 3);
    json::a_field_is_read_by_name_or_place::<Capabilities>(members, Seq::empty(), i, "capabilities"@, 4);
}

/// A capabilities is read field by field: each from the member of its name or the item of its place, and left
/// empty where there is neither.
pub proof fn a_capabilities_is_read_field_by_field(
    members: Seq<(Seq<char>, Tree)>,
    items: Seq<Tree>,
    i: int,
)
    requires
        json::are_distinct(members),
    ensures
        0 <= i < members.len() && members[i].0 == "add"@ ==> Capabilities::value(Tree::Object(members)).add
            == <Vec<String> as Readable>::value(members[i].1),
        !json::is_there(members, "add"@) ==> Capabilities::value(Tree::Object(members)).add == <Vec<String> as Readable>::nothing(),
        items.len() > 0 ==> Capabilities::value(Tree::List(items)).add == <Vec<String> as Readable>::value(items[0]),
        0 <= i < members.len() && members[i].0 == "drop"@ ==> Capabilities::value(Tree::Object(members)).drop
            == <Vec<String> as Readable>::value(members[i].1),
        !json::is_there(members, "drop"@) ==> Capabilities::value(Tree::Object(members)).drop == <Vec<String> as Readable>::nothing(),
        items.len() > 1 ==> Capabilities::value(Tree::List(items)).drop == <Vec<String> as Readable>::value(items[1]),
{
    json::a_field_is_read_by_name_or_place::<Vec<String>>(members, items, i, "add"@, 0);
    json::a_field_is_read_by_name_or_place::<Vec<String>>(members, items, i, "drop"@, 1);
}

/// A capabilities is read wherever each of its members can be.
pub proof fn a_capabilities_is_read_where_its_members_are(members: Seq<(Seq<char>, Tree)>)
    requires
        json::are_distinct(members),
        forall|j: int|
            0 <= j < members.len() && (#[trigger] members[j]).0 == "add"@ ==> <Vec<String> as Readable>::fault(members[j].1) is None,
        forall|j: int|
            0 <= j < members.len() && (#[trigger] members[j]).0 == "drop"@ ==> <Vec<String> as Readable>::fault(members[j].1) is None,
    ensures
        Capabilities::fault(Tree::Object(members)) is None,
{
    assert forall|j: int| 0 <= j < members.len() implies Capabilities::member_fault(
        (#[trigger] members[j]).0,
        members[j].1,
    ) is None by {}
    json::members_are_read_where_each_is::<Capabilities>(members);
    assert(json::field_fault::<Vec<String>>(Tree::Object(members), "add"@, 0) is None) by {
        json::a_member_is_found_by_name(members, "add"@);
        if let Some(v) = json::lookup(members, "add"@) {
            let j = choose|j: int| 0 <= j < members.len() && members[j] == ("add"@, v);
            assert(members[j].0 == "add"@);
        }
    }
    assert(json::field_fault::<Vec<String>>(Tree::Object(members), "drop"@, 1) is None) by {
        json::a_member_is_found_by_name(members, "drop"@);
        if let Some(v) = json::lookup(members, "drop"@) {
            let j = choose|j: int| 0 <= j < members.len() && members[j] == ("drop"@, v);
            assert(members[j].0 == "drop"@);
        }
    }
}

/// A capabilities is refused for any one member that cannot be read.
pub proof fn a_capabilities_is_refused_for_one_member(members: Seq<(Seq<char>, Tree)>, i: int)
    requires
        json::are_distinct(members),
    ensures
        0 <= i < members.len() && members[i].0 == "add"@ && <Vec<String> as Readable>::fault(members[i].1) is Some
            ==> Capabilities::fault(Tree::Object(members)) is Some,
        0 <= i < members.len() && members[i].0 == "drop"@ && <Vec<String> as Readable>::fault(members[i].1) is Some
            ==> Capabilities::fault(Tree::Object(members)) is Some,
{
    json::a_field_is_read_by_name_or_place::<Vec<String>>(members, Seq::empty(), i, "add"@, 0);
    json::a_field_is_read_by_name_or_place::<Vec<String>>(members, Seq::empty(), i, "drop"@, 1);
}

/// A volume is read field by field: each from the member of its name or the item of its place, and left
/// empty where there is neither.
pub proof fn a_volume_is_read_field_by_field(
    members: Seq<(Seq<char>, Tree)>,
    items: Seq<Tree>,
    i: int,
)
    requires
        json::are_distinct(members),
    ensures
        0 <= i < members.len() && members[i].0 == "name"@ ==> Volume::value(Tree::Object(members)).name
            == String::value(members[i].1),
        !json::is_there(members, "name"@) ==> Volume::value(Tree::Object(members)).name == String::nothing(),
        items.len() > 0 ==> Volume::value(Tree::List(items)).name == String::value(items[0]),
        0 <= i < members.len() && members[i].0 == "hostPath"@ ==> Volume::value(Tree::Object(members)).host_path
            == <Option<HostPathVolume> as Readable>::value(members[i].1),
        !json::is_there(members, "hostPath"@) ==> Volume::value(Tree::Object(members)).host_path == <Option<HostPathVolume> as Readable>::nothing(),
        items.len() > 1 ==> Volume::value(Tree::List(items)).host_path == <Option<HostPathVolume> as Readable>::value(items[1]),
        0 <= i < members.len() && members[i].0 == "secret"@ ==> Volume::value(Tree::Object(members)).secret
            == <Option<SecretVolume> as Readable>::value(members[i].1),
        !json::is_there(members, "secret"@) ==> Volume::value(Tree::Object(members)).secret == <Option<SecretVolume> as Readable>::nothing(),
        items.len() > 2 ==> Volume::value(Tree::List(items)).secret == <Option<SecretVolume> as Readable>::value(items[2]),
        0 <= i < members.len() && members[i].0 == "projected"@ ==> Volume::value(Tree::Object(members)).projected
            == <Option<ProjectedVolume> as Readable>::value(members[i].1),
        !json::is_there(members, "projected"@) ==> Volume::value(Tree::Object(members)).projected == <Option<ProjectedVolume> as Readable>::nothing(),
        items.len() > 3 ==> Volume::value(Tree::List(items)).projected == <Option<ProjectedVolume> as Readable>::value(items[3]),
{
    json::a_field_is_read_by_name_or_place::<String>(members, items, i, "name"@, 0);
    json::a_field_is_read_by_name_or_place::<Option<HostPathVolume>>(members, items, i, "hostPath"@, 1);
    json::a_field_is_read_by_name_or_place::<Option<SecretVolume>>(members, items, i, "secret"@, 2);
    json::a_field_is_read_by_name_or_place::<Option<ProjectedVolume>>(members, items, i, "projected"@, 3);
}

/// A volume is read wherever each of its members can be.
pub proof fn a_volume_is_read_where_its_members_are(members: Seq<(Seq<char>, Tree)>)
    requires
        json::are_distinct(members),
        forall|j: int|
            0 <= j < members.len() && (#[trigger] members[j]).0 == "name"@ ==> String::fault(members[j].1) is None,
        forall|j: int|
            0 <= j < members.len() && (#[trigger] members[j]).0 == "hostPath"@ ==> <Option<HostPathVolume> as Readable>::fault(members[j].1) is None,
        forall|j: int|
            0 <= j < members.len() && (#[trigger] members[j]).0 == "secret"@ ==> <Option<SecretVolume> as Readable>::fault(members[j].1) is None,
        forall|j: int|
            0 <= j < members.len() && (#[trigger] members[j]).0 == "projected"@ ==> <Option<ProjectedVolume> as Readable>::fault(members[j].1) is None,
    ensures
        Volume::fault(Tree::Object(members)) is None,
{
    assert forall|j: int| 0 <= j < members.len() implies Volume::member_fault(
        (#[trigger] members[j]).0,
        members[j].1,
    ) is None by {}
    json::members_are_read_where_each_is::<Volume>(members);
    assert(json::field_fault::<String>(Tree::Object(members), "name"@, 0) is None) by {
        json::a_member_is_found_by_name(members, "name"@);
        if let Some(v) = json::lookup(members, "name"@) {
            let j = choose|j: int| 0 <= j < members.len() && members[j] == ("name"@, v);
            assert(members[j].0 == "name"@);
        }
    }
    assert(json::field_fault::<Option<HostPathVolume>>(Tree::Object(members), "hostPath"@, 1) is None) by {
        json::a_member_is_found_by_name(members, "hostPath"@);
        if let Some(v) = json::lookup(members, "hostPath"@) {
            let j = choose|j: int| 0 <= j < members.len() && members[j] == ("hostPath"@, v);
            assert(members[j].0 == "hostPath"@);
        }
    }
    assert(json::field_fault::<Option<SecretVolume>>(Tree::Object(members), "secret"@, 2) is None) by {
        json::a_member_is_found_by_name(members, "secret"@);
        if let Some(v) = json::lookup(members, "secret"@) {
            let j = choose|j: int| 0 <= j < members.len() && members[j] == ("secret"@, v);
            assert(members[j].0 == "secret"@);
        }
    }
    assert(json::field_fault::<Option<ProjectedVolume>>(Tree::Object(members), "projected"@, 3) is None) by {
        json::a_member_is_found_by_name(members, "projected"@);
        if let Some(v) = json::lookup(members, "projected"@) {
            let j = choose|j: int| 0 <= j < members.len() && members[j] == ("projected"@, v);
            assert(members[j].0 == "projected"@);
        }
    }
}

/// A volume is refused for any one member that cannot be read.
pub proof fn a_volume_is_refused_for_one_member(members: Seq<(Seq<char>, Tree)>, i: int)
    requires
        json::are_distinct(members),
    ensures
        0 <= i < members.len() && members[i].0 == "name"@ && String::fault(members[i].1) is Some
            ==> Volume::fault(Tree::Object(members)) is Some,
        0 <= i < members.len() && members[i].0 == "hostPath"@ && <Option<HostPathVolume> as Readable>::fault(members[i].1) is Some
            ==> Volume::fault(Tree::Object(members)) is Some,
        0 <= i < members.len() && members[i].0 == "secret"@ && <Option<SecretVolume> as Readable>::fault(members[i].1) is Some
            ==> Volume::fault(Tree::Object(members)) is Some,
        0 <= i < members.len() && members[i].0 == "projected"@ && <Option<ProjectedVolume> as Readable>::fault(members[i].1) is Some
            ==> Volume::fault(Tree::Object(members)) is Some,
{
    json::a_field_is_read_by_name_or_place::<String>(members, Seq::empty(), i, "name"@, 0);
    json::a_field_is_read_by_name_or_place::<Option<HostPathVolume>>(members, Seq::empty(), i, "hostPath"@, 1);
    json::a_field_is_read_by_name_or_place::<Option<SecretVolume>>(members, Seq::empty(), i, "secret"@, 2);
    json::a_field_is_read_by_name_or_place::<Option<ProjectedVolume>>(members, Seq::empty(), i, "projected"@, 3);
}

/// A host path volume is read field by field: each from the member of its name or the item of its place, and left
/// empty where there is neither.
pub proof fn a_host_path_volume_is_read_field_by_field(
    members: Seq<(Seq<char>, Tree)>,
    items: Seq<Tree>,
    i: int,
)
    requires
        json::are_distinct(members),
    ensures
        0 <= i < members.len() && members[i].0 == "path"@ ==> HostPathVolume::value(Tree::Object(members)).path
            == String::value(members[i].1),
        !json::is_there(members, "path"@) ==> HostPathVolume::value(Tree::Object(members)).path == String::nothing(),
        items.len() > 0 ==> HostPathVolume::value(Tree::List(items)).path == String::value(items[0]),
        0 <= i < members.len() && members[i].0 == "type"@ ==> HostPathVolume::value(Tree::Object(members)).kind
            == <Option<String> as Readable>::value(members[i].1),
        !json::is_there(members, "type"@) ==> HostPathVolume::value(Tree::Object(members)).kind == <Option<String> as Readable>::nothing(),
        items.len() > 1 ==> HostPathVolume::value(Tree::List(items)).kind == <Option<String> as Readable>::value(items[1]),
{
    json::a_field_is_read_by_name_or_place::<String>(members, items, i, "path"@, 0);
    json::a_field_is_read_by_name_or_place::<Option<String>>(members, items, i, "type"@, 1);
}

/// A host path volume is read wherever each of its members can be.
pub proof fn a_host_path_volume_is_read_where_its_members_are(members: Seq<(Seq<char>, Tree)>)
    requires
        json::are_distinct(members),
        forall|j: int|
            0 <= j < members.len() && (#[trigger] members[j]).0 == "path"@ ==> String::fault(members[j].1) is None,
        forall|j: int|
            0 <= j < members.len() && (#[trigger] members[j]).0 == "type"@ ==> <Option<String> as Readable>::fault(members[j].1) is None,
    ensures
        HostPathVolume::fault(Tree::Object(members)) is None,
{
    assert forall|j: int| 0 <= j < members.len() implies HostPathVolume::member_fault(
        (#[trigger] members[j]).0,
        members[j].1,
    ) is None by {}
    json::members_are_read_where_each_is::<HostPathVolume>(members);
    assert(json::field_fault::<String>(Tree::Object(members), "path"@, 0) is None) by {
        json::a_member_is_found_by_name(members, "path"@);
        if let Some(v) = json::lookup(members, "path"@) {
            let j = choose|j: int| 0 <= j < members.len() && members[j] == ("path"@, v);
            assert(members[j].0 == "path"@);
        }
    }
    assert(json::field_fault::<Option<String>>(Tree::Object(members), "type"@, 1) is None) by {
        json::a_member_is_found_by_name(members, "type"@);
        if let Some(v) = json::lookup(members, "type"@) {
            let j = choose|j: int| 0 <= j < members.len() && members[j] == ("type"@, v);
            assert(members[j].0 == "type"@);
        }
    }
}

/// A host path volume is refused for any one member that cannot be read.
pub proof fn a_host_path_volume_is_refused_for_one_member(members: Seq<(Seq<char>, Tree)>, i: int)
    requires
        json::are_distinct(members),
    ensures
        0 <= i < members.len() && members[i].0 == "path"@ && String::fault(members[i].1) is Some
            ==> HostPathVolume::fault(Tree::Object(members)) is Some,
        0 <= i < members.len() && members[i].0 == "type"@ && <Option<String> as Readable>::fault(members[i].1) is Some
            ==> HostPathVolume::fault(Tree::Object(members)) is Some,
{
    json::a_field_is_read_by_name_or_place::<String>(members, Seq::empty(), i, "path"@, 0);
    json::a_field_is_read_by_name_or_place::<Option<String>>(members, Seq::empty(), i, "type"@, 1);
}

/// A secret volume is read field by field: each from the member of its name or the item of its place, and left
/// empty where there is neither.
pub proof fn a_secret_volume_is_read_field_by_field(
    members: Seq<(Seq<char>, Tree)>,
    items: Seq<Tree>,
    i: int,
)
    requires
        json::are_distinct(members),
    ensures
        0 <= i < members.len() && members[i].0 == "secretName"@ ==> SecretVolume::value(Tree::Object(members)).secret_name
            == String::value(members[i].1),
        !json::is_there(members, "secretName"@) ==> SecretVolume::value(Tree::Object(members)).secret_name == String::nothing(),
        items.len() > 0 ==> SecretVolume::value(Tree::List(items)).secret_name == String::value(items[0]),
{
    json::a_field_is_read_by_name_or_place::<String>(members, items, i, "secretName"@, 0);
}

/// A secret volume is read wherever each of its members can be.
pub proof fn a_secret_volume_is_read_where_its_members_are(members: Seq<(Seq<char>, Tree)>)
    requires
        json::are_distinct(members),
        forall|j: int|
            0 <= j < members.len() && (#[trigger] members[j]).0 == "secretName"@ ==> String::fault(members[j].1) is None,
    ensures
        SecretVolume::fault(Tree::Object(members)) is None,
{
    assert forall|j: int| 0 <= j < members.len() implies SecretVolume::member_fault(
        (#[trigger] members[j]).0,
        members[j].1,
    ) is None by {}
    json::members_are_read_where_each_is::<SecretVolume>(members);
    assert(json::field_fault::<String>(Tree::Object(members), "secretName"@, 0) is None) by {
        json::a_member_is_found_by_name(members, "secretName"@);
        if let Some(v) = json::lookup(members, "secretName"@) {
            let j = choose|j: int| 0 <= j < members.len() && members[j] == ("secretName"@, v);
            assert(members[j].0 == "secretName"@);
        }
    }
}

/// A secret volume is refused for any one member that cannot be read.
pub proof fn a_secret_volume_is_refused_for_one_member(members: Seq<(Seq<char>, Tree)>, i: int)
    requires
        json::are_distinct(members),
    ensures
        0 <= i < members.len() && members[i].0 == "secretName"@ && String::fault(members[i].1) is Some
            ==> SecretVolume::fault(Tree::Object(members)) is Some,
{
    json::a_field_is_read_by_name_or_place::<String>(members, Seq::empty(), i, "secretName"@, 0);
}

/// A projected volume is read field by field: each from the member of its name or the item of its place, and left
/// empty where there is neither.
pub proof fn a_projected_volume_is_read_field_by_field(
    members: Seq<(Seq<char>, Tree)>,
    items: Seq<Tree>,
    i: int,
)
    requires
        json::are_distinct(members),
    ensures
        0 <= i < members.len() && members[i].0 == "sources"@ ==> ProjectedVolume::value(Tree::Object(members)).sources
            == <Vec<ProjectedSource> as Readable>::value(members[i].1),
        !json::is_there(members, "sources"@) ==> ProjectedVolume::value(Tree::Object(members)).sources == <Vec<ProjectedSource> as Readable>::nothing(),
        items.len() > 0 ==> ProjectedVolume::value(Tree::List(items)).sources == <Vec<ProjectedSource> as Readable>::value(items[0]),
{
    json::a_field_is_read_by_name_or_place::<Vec<ProjectedSource>>(members, items, i, "sources"@, 0);
}

/// A projected volume is read wherever each of its members can be.
pub proof fn a_projected_volume_is_read_where_its_members_are(members: Seq<(Seq<char>, Tree)>)
    requires
        json::are_distinct(members),
        forall|j: int|
            0 <= j < members.len() && (#[trigger] members[j]).0 == "sources"@ ==> <Vec<ProjectedSource> as Readable>::fault(members[j].1) is None,
    ensures
        ProjectedVolume::fault(Tree::Object(members)) is None,
{
    assert forall|j: int| 0 <= j < members.len() implies ProjectedVolume::member_fault(
        (#[trigger] members[j]).0,
        members[j].1,
    ) is None by {}
    json::members_are_read_where_each_is::<ProjectedVolume>(members);
    assert(json::field_fault::<Vec<ProjectedSource>>(Tree::Object(members), "sources"@, 0) is None) by {
        json::a_member_is_found_by_name(members, "sources"@);
        if let Some(v) = json::lookup(members, "sources"@) {
            let j = choose|j: int| 0 <= j < members.len() && members[j] == ("sources"@, v);
            assert(members[j].0 == "sources"@);
        }
    }
}

/// A projected volume is refused for any one member that cannot be read.
pub proof fn a_projected_volume_is_refused_for_one_member(members: Seq<(Seq<char>, Tree)>, i: int)
    requires
        json::are_distinct(members),
    ensures
        0 <= i < members.len() && members[i].0 == "sources"@ && <Vec<ProjectedSource> as Readable>::fault(members[i].1) is Some
            ==> ProjectedVolume::fault(Tree::Object(members)) is Some,
{
    json::a_field_is_read_by_name_or_place::<Vec<ProjectedSource>>(members, Seq::empty(), i, "sources"@, 0);
}

/// A projected source is read field by field: each from the member of its name or the item of its place, and left
/// empty where there is neither.
pub proof fn a_projected_source_is_read_field_by_field(
    members: Seq<(Seq<char>, Tree)>,
    items: Seq<Tree>,
    i: int,
)
    requires
        json::are_distinct(members),
    ensures
        0 <= i < members.len() && members[i].0 == "secret"@ ==> ProjectedSource::value(Tree::Object(members)).secret
            == <Option<SecretVolume> as Readable>::value(members[i].1),
        !json::is_there(members, "secret"@) ==> ProjectedSource::value(Tree::Object(members)).secret == <Option<SecretVolume> as Readable>::nothing(),
        items.len() > 0 ==> ProjectedSource::value(Tree::List(items)).secret == <Option<SecretVolume> as Readable>::value(items[0]),
{
    json::a_field_is_read_by_name_or_place::<Option<SecretVolume>>(members, items, i, "secret"@, 0);
}

/// A projected source is read wherever each of its members can be.
pub proof fn a_projected_source_is_read_where_its_members_are(members: Seq<(Seq<char>, Tree)>)
    requires
        json::are_distinct(members),
        forall|j: int|
            0 <= j < members.len() && (#[trigger] members[j]).0 == "secret"@ ==> <Option<SecretVolume> as Readable>::fault(members[j].1) is None,
    ensures
        ProjectedSource::fault(Tree::Object(members)) is None,
{
    assert forall|j: int| 0 <= j < members.len() implies ProjectedSource::member_fault(
        (#[trigger] members[j]).0,
        members[j].1,
    ) is None by {}
    json::members_are_read_where_each_is::<ProjectedSource>(members);
    assert(json::field_fault::<Option<SecretVolume>>(Tree::Object(members), "secret"@, 0) is None) by {
        json::a_member_is_found_by_name(members, "secret"@);
        if let Some(v) = json::lookup(members, "secret"@) {
            let j = choose|j: int| 0 <= j < members.len() && members[j] == ("secret"@, v);
            assert(members[j].0 == "secret"@);
        }
    }
}

/// A projected source is refused for any one member that cannot be read.
pub proof fn a_projected_source_is_refused_for_one_member(members: Seq<(Seq<char>, Tree)>, i: int)
    requires
        json::are_distinct(members),
    ensures
        0 <= i < members.len() && members[i].0 == "secret"@ && <Option<SecretVolume> as Readable>::fault(members[i].1) is Some
            ==> ProjectedSource::fault(Tree::Object(members)) is Some,
{
    json::a_field_is_read_by_name_or_place::<Option<SecretVolume>>(members, Seq::empty(), i, "secret"@, 0);
}

/// A volume mount is read field by field: each from the member of its name or the item of its place, and left
/// empty where there is neither.
pub proof fn a_volume_mount_is_read_field_by_field(
    members: Seq<(Seq<char>, Tree)>,
    items: Seq<Tree>,
    i: int,
)
    requires
        json::are_distinct(members),
    ensures
        0 <= i < members.len() && members[i].0 == "name"@ ==> VolumeMount::value(Tree::Object(members)).name
            == String::value(members[i].1),
        !json::is_there(members, "name"@) ==> VolumeMount::value(Tree::Object(members)).name == String::nothing(),
        items.len() > 0 ==> VolumeMount::value(Tree::List(items)).name == String::value(items[0]),
        0 <= i < members.len() && members[i].0 == "mountPath"@ ==> VolumeMount::value(Tree::Object(members)).mount_path
            == String::value(members[i].1),
        !json::is_there(members, "mountPath"@) ==> VolumeMount::value(Tree::Object(members)).mount_path == String::nothing(),
        items.len() > 1 ==> VolumeMount::value(Tree::List(items)).mount_path == String::value(items[1]),
        0 <= i < members.len() && members[i].0 == "readOnly"@ ==> VolumeMount::value(Tree::Object(members)).read_only
            == <Option<bool> as Readable>::value(members[i].1),
        !json::is_there(members, "readOnly"@) ==> VolumeMount::value(Tree::Object(members)).read_only == <Option<bool> as Readable>::nothing(),
        items.len() > 2 ==> VolumeMount::value(Tree::List(items)).read_only == <Option<bool> as Readable>::value(items[2]),
{
    json::a_field_is_read_by_name_or_place::<String>(members, items, i, "name"@, 0);
    json::a_field_is_read_by_name_or_place::<String>(members, items, i, "mountPath"@, 1);
    json::a_field_is_read_by_name_or_place::<Option<bool>>(members, items, i, "readOnly"@, 2);
}

/// A volume mount is read wherever each of its members can be.
pub proof fn a_volume_mount_is_read_where_its_members_are(members: Seq<(Seq<char>, Tree)>)
    requires
        json::are_distinct(members),
        forall|j: int|
            0 <= j < members.len() && (#[trigger] members[j]).0 == "name"@ ==> String::fault(members[j].1) is None,
        forall|j: int|
            0 <= j < members.len() && (#[trigger] members[j]).0 == "mountPath"@ ==> String::fault(members[j].1) is None,
        forall|j: int|
            0 <= j < members.len() && (#[trigger] members[j]).0 == "readOnly"@ ==> <Option<bool> as Readable>::fault(members[j].1) is None,
    ensures
        VolumeMount::fault(Tree::Object(members)) is None,
{
    assert forall|j: int| 0 <= j < members.len() implies VolumeMount::member_fault(
        (#[trigger] members[j]).0,
        members[j].1,
    ) is None by {}
    json::members_are_read_where_each_is::<VolumeMount>(members);
    assert(json::field_fault::<String>(Tree::Object(members), "name"@, 0) is None) by {
        json::a_member_is_found_by_name(members, "name"@);
        if let Some(v) = json::lookup(members, "name"@) {
            let j = choose|j: int| 0 <= j < members.len() && members[j] == ("name"@, v);
            assert(members[j].0 == "name"@);
        }
    }
    assert(json::field_fault::<String>(Tree::Object(members), "mountPath"@, 1) is None) by {
        json::a_member_is_found_by_name(members, "mountPath"@);
        if let Some(v) = json::lookup(members, "mountPath"@) {
            let j = choose|j: int| 0 <= j < members.len() && members[j] == ("mountPath"@, v);
            assert(members[j].0 == "mountPath"@);
        }
    }
    assert(json::field_fault::<Option<bool>>(Tree::Object(members), "readOnly"@, 2) is None) by {
        json::a_member_is_found_by_name(members, "readOnly"@);
        if let Some(v) = json::lookup(members, "readOnly"@) {
            let j = choose|j: int| 0 <= j < members.len() && members[j] == ("readOnly"@, v);
            assert(members[j].0 == "readOnly"@);
        }
    }
}

/// A volume mount is refused for any one member that cannot be read.
pub proof fn a_volume_mount_is_refused_for_one_member(members: Seq<(Seq<char>, Tree)>, i: int)
    requires
        json::are_distinct(members),
    ensures
        0 <= i < members.len() && members[i].0 == "name"@ && String::fault(members[i].1) is Some
            ==> VolumeMount::fault(Tree::Object(members)) is Some,
        0 <= i < members.len() && members[i].0 == "mountPath"@ && String::fault(members[i].1) is Some
            ==> VolumeMount::fault(Tree::Object(members)) is Some,
        0 <= i < members.len() && members[i].0 == "readOnly"@ && <Option<bool> as Readable>::fault(members[i].1) is Some
            ==> VolumeMount::fault(Tree::Object(members)) is Some,
{
    json::a_field_is_read_by_name_or_place::<String>(members, Seq::empty(), i, "name"@, 0);
    json::a_field_is_read_by_name_or_place::<String>(members, Seq::empty(), i, "mountPath"@, 1);
    json::a_field_is_read_by_name_or_place::<Option<bool>>(members, Seq::empty(), i, "readOnly"@, 2);
}

/// An env var is read field by field: each from the member of its name or the item of its place, and left
/// empty where there is neither.
pub proof fn an_env_var_is_read_field_by_field(
    members: Seq<(Seq<char>, Tree)>,
    items: Seq<Tree>,
    i: int,
)
    requires
        json::are_distinct(members),
    ensures
        0 <= i < members.len() && members[i].0 == "name"@ ==> EnvVar::value(Tree::Object(members)).name
            == String::value(members[i].1),
        !json::is_there(members, "name"@) ==> EnvVar::value(Tree::Object(members)).name == String::nothing(),
        items.len() > 0 ==> EnvVar::value(Tree::List(items)).name == String::value(items[0]),
        0 <= i < members.len() && members[i].0 == "valueFrom"@ ==> EnvVar::value(Tree::Object(members)).value_from
            == <Option<EnvVarSource> as Readable>::value(members[i].1),
        !json::is_there(members, "valueFrom"@) ==> EnvVar::value(Tree::Object(members)).value_from == <Option<EnvVarSource> as Readable>::nothing(),
        items.len() > 1 ==> EnvVar::value(Tree::List(items)).value_from == <Option<EnvVarSource> as Readable>::value(items[1]),
{
    json::a_field_is_read_by_name_or_place::<String>(members, items, i, "name"@, 0);
    json::a_field_is_read_by_name_or_place::<Option<EnvVarSource>>(members, items, i, "valueFrom"@, 1);
}

/// An env var is read wherever each of its members can be.
pub proof fn an_env_var_is_read_where_its_members_are(members: Seq<(Seq<char>, Tree)>)
    requires
        json::are_distinct(members),
        forall|j: int|
            0 <= j < members.len() && (#[trigger] members[j]).0 == "name"@ ==> String::fault(members[j].1) is None,
        forall|j: int|
            0 <= j < members.len() && (#[trigger] members[j]).0 == "valueFrom"@ ==> <Option<EnvVarSource> as Readable>::fault(members[j].1) is None,
    ensures
        EnvVar::fault(Tree::Object(members)) is None,
{
    assert forall|j: int| 0 <= j < members.len() implies EnvVar::member_fault(
        (#[trigger] members[j]).0,
        members[j].1,
    ) is None by {}
    json::members_are_read_where_each_is::<EnvVar>(members);
    assert(json::field_fault::<String>(Tree::Object(members), "name"@, 0) is None) by {
        json::a_member_is_found_by_name(members, "name"@);
        if let Some(v) = json::lookup(members, "name"@) {
            let j = choose|j: int| 0 <= j < members.len() && members[j] == ("name"@, v);
            assert(members[j].0 == "name"@);
        }
    }
    assert(json::field_fault::<Option<EnvVarSource>>(Tree::Object(members), "valueFrom"@, 1) is None) by {
        json::a_member_is_found_by_name(members, "valueFrom"@);
        if let Some(v) = json::lookup(members, "valueFrom"@) {
            let j = choose|j: int| 0 <= j < members.len() && members[j] == ("valueFrom"@, v);
            assert(members[j].0 == "valueFrom"@);
        }
    }
}

/// An env var is refused for any one member that cannot be read.
pub proof fn an_env_var_is_refused_for_one_member(members: Seq<(Seq<char>, Tree)>, i: int)
    requires
        json::are_distinct(members),
    ensures
        0 <= i < members.len() && members[i].0 == "name"@ && String::fault(members[i].1) is Some
            ==> EnvVar::fault(Tree::Object(members)) is Some,
        0 <= i < members.len() && members[i].0 == "valueFrom"@ && <Option<EnvVarSource> as Readable>::fault(members[i].1) is Some
            ==> EnvVar::fault(Tree::Object(members)) is Some,
{
    json::a_field_is_read_by_name_or_place::<String>(members, Seq::empty(), i, "name"@, 0);
    json::a_field_is_read_by_name_or_place::<Option<EnvVarSource>>(members, Seq::empty(), i, "valueFrom"@, 1);
}

/// An env var source is read field by field: each from the member of its name or the item of its place, and left
/// empty where there is neither.
pub proof fn an_env_var_source_is_read_field_by_field(
    members: Seq<(Seq<char>, Tree)>,
    items: Seq<Tree>,
    i: int,
)
    requires
        json::are_distinct(members),
    ensures
        0 <= i < members.len() && members[i].0 == "secretKeyRef"@ ==> EnvVarSource::value(Tree::Object(members)).secret_key_ref
            == <Option<SecretKeySelector> as Readable>::value(members[i].1),
        !json::is_there(members, "secretKeyRef"@) ==> EnvVarSource::value(Tree::Object(members)).secret_key_ref == <Option<SecretKeySelector> as Readable>::nothing(),
        items.len() > 0 ==> EnvVarSource::value(Tree::List(items)).secret_key_ref == <Option<SecretKeySelector> as Readable>::value(items[0]),
{
    json::a_field_is_read_by_name_or_place::<Option<SecretKeySelector>>(members, items, i, "secretKeyRef"@, 0);
}

/// An env var source is read wherever each of its members can be.
pub proof fn an_env_var_source_is_read_where_its_members_are(members: Seq<(Seq<char>, Tree)>)
    requires
        json::are_distinct(members),
        forall|j: int|
            0 <= j < members.len() && (#[trigger] members[j]).0 == "secretKeyRef"@ ==> <Option<SecretKeySelector> as Readable>::fault(members[j].1) is None,
    ensures
        EnvVarSource::fault(Tree::Object(members)) is None,
{
    assert forall|j: int| 0 <= j < members.len() implies EnvVarSource::member_fault(
        (#[trigger] members[j]).0,
        members[j].1,
    ) is None by {}
    json::members_are_read_where_each_is::<EnvVarSource>(members);
    assert(json::field_fault::<Option<SecretKeySelector>>(Tree::Object(members), "secretKeyRef"@, 0) is None) by {
        json::a_member_is_found_by_name(members, "secretKeyRef"@);
        if let Some(v) = json::lookup(members, "secretKeyRef"@) {
            let j = choose|j: int| 0 <= j < members.len() && members[j] == ("secretKeyRef"@, v);
            assert(members[j].0 == "secretKeyRef"@);
        }
    }
}

/// An env var source is refused for any one member that cannot be read.
pub proof fn an_env_var_source_is_refused_for_one_member(members: Seq<(Seq<char>, Tree)>, i: int)
    requires
        json::are_distinct(members),
    ensures
        0 <= i < members.len() && members[i].0 == "secretKeyRef"@ && <Option<SecretKeySelector> as Readable>::fault(members[i].1) is Some
            ==> EnvVarSource::fault(Tree::Object(members)) is Some,
{
    json::a_field_is_read_by_name_or_place::<Option<SecretKeySelector>>(members, Seq::empty(), i, "secretKeyRef"@, 0);
}

/// A secret key selector is read field by field: each from the member of its name or the item of its place, and left
/// empty where there is neither.
pub proof fn a_secret_key_selector_is_read_field_by_field(
    members: Seq<(Seq<char>, Tree)>,
    items: Seq<Tree>,
    i: int,
)
    requires
        json::are_distinct(members),
    ensures
        0 <= i < members.len() && members[i].0 == "name"@ ==> SecretKeySelector::value(Tree::Object(members)).name
            == String::value(members[i].1),
        !json::is_there(members, "name"@) ==> SecretKeySelector::value(Tree::Object(members)).name == String::nothing(),
        items.len() > 0 ==> SecretKeySelector::value(Tree::List(items)).name == String::value(items[0]),
        0 <= i < members.len() && members[i].0 == "key"@ ==> SecretKeySelector::value(Tree::Object(members)).key
            == String::value(members[i].1),
        !json::is_there(members, "key"@) ==> SecretKeySelector::value(Tree::Object(members)).key == String::nothing(),
        items.len() > 1 ==> SecretKeySelector::value(Tree::List(items)).key == String::value(items[1]),
{
    json::a_field_is_read_by_name_or_place::<String>(members, items, i, "name"@, 0);
    json::a_field_is_read_by_name_or_place::<String>(members, items, i, "key"@, 1);
}

/// A secret key selector is read wherever each of its members can be.
pub proof fn a_secret_key_selector_is_read_where_its_members_are(members: Seq<(Seq<char>, Tree)>)
    requires
        json::are_distinct(members),
        forall|j: int|
            0 <= j < members.len() && (#[trigger] members[j]).0 == "name"@ ==> String::fault(members[j].1) is None,
        forall|j: int|
            0 <= j < members.len() && (#[trigger] members[j]).0 == "key"@ ==> String::fault(members[j].1) is None,
    ensures
        SecretKeySelector::fault(Tree::Object(members)) is None,
{
    assert forall|j: int| 0 <= j < members.len() implies SecretKeySelector::member_fault(
        (#[trigger] members[j]).0,
        members[j].1,
    ) is None by {}
    json::members_are_read_where_each_is::<SecretKeySelector>(members);
    assert(json::field_fault::<String>(Tree::Object(members), "name"@, 0) is None) by {
        json::a_member_is_found_by_name(members, "name"@);
        if let Some(v) = json::lookup(members, "name"@) {
            let j = choose|j: int| 0 <= j < members.len() && members[j] == ("name"@, v);
            assert(members[j].0 == "name"@);
        }
    }
    assert(json::field_fault::<String>(Tree::Object(members), "key"@, 1) is None) by {
        json::a_member_is_found_by_name(members, "key"@);
        if let Some(v) = json::lookup(members, "key"@) {
            let j = choose|j: int| 0 <= j < members.len() && members[j] == ("key"@, v);
            assert(members[j].0 == "key"@);
        }
    }
}

/// A secret key selector is refused for any one member that cannot be read.
pub proof fn a_secret_key_selector_is_refused_for_one_member(members: Seq<(Seq<char>, Tree)>, i: int)
    requires
        json::are_distinct(members),
    ensures
        0 <= i < members.len() && members[i].0 == "name"@ && String::fault(members[i].1) is Some
            ==> SecretKeySelector::fault(Tree::Object(members)) is Some,
        0 <= i < members.len() && members[i].0 == "key"@ && String::fault(members[i].1) is Some
            ==> SecretKeySelector::fault(Tree::Object(members)) is Some,
{
    json::a_field_is_read_by_name_or_place::<String>(members, Seq::empty(), i, "name"@, 0);
    json::a_field_is_read_by_name_or_place::<String>(members, Seq::empty(), i, "key"@, 1);
}

/// An env from source is read field by field: each from the member of its name or the item of its place, and left
/// empty where there is neither.
pub proof fn an_env_from_source_is_read_field_by_field(
    members: Seq<(Seq<char>, Tree)>,
    items: Seq<Tree>,
    i: int,
)
    requires
        json::are_distinct(members),
    ensures
        0 <= i < members.len() && members[i].0 == "secretRef"@ ==> EnvFromSource::value(Tree::Object(members)).secret_ref
            == <Option<SecretEnvSource> as Readable>::value(members[i].1),
        !json::is_there(members, "secretRef"@) ==> EnvFromSource::value(Tree::Object(members)).secret_ref == <Option<SecretEnvSource> as Readable>::nothing(),
        items.len() > 0 ==> EnvFromSource::value(Tree::List(items)).secret_ref == <Option<SecretEnvSource> as Readable>::value(items[0]),
{
    json::a_field_is_read_by_name_or_place::<Option<SecretEnvSource>>(members, items, i, "secretRef"@, 0);
}

/// An env from source is read wherever each of its members can be.
pub proof fn an_env_from_source_is_read_where_its_members_are(members: Seq<(Seq<char>, Tree)>)
    requires
        json::are_distinct(members),
        forall|j: int|
            0 <= j < members.len() && (#[trigger] members[j]).0 == "secretRef"@ ==> <Option<SecretEnvSource> as Readable>::fault(members[j].1) is None,
    ensures
        EnvFromSource::fault(Tree::Object(members)) is None,
{
    assert forall|j: int| 0 <= j < members.len() implies EnvFromSource::member_fault(
        (#[trigger] members[j]).0,
        members[j].1,
    ) is None by {}
    json::members_are_read_where_each_is::<EnvFromSource>(members);
    assert(json::field_fault::<Option<SecretEnvSource>>(Tree::Object(members), "secretRef"@, 0) is None) by {
        json::a_member_is_found_by_name(members, "secretRef"@);
        if let Some(v) = json::lookup(members, "secretRef"@) {
            let j = choose|j: int| 0 <= j < members.len() && members[j] == ("secretRef"@, v);
            assert(members[j].0 == "secretRef"@);
        }
    }
}

/// An env from source is refused for any one member that cannot be read.
pub proof fn an_env_from_source_is_refused_for_one_member(members: Seq<(Seq<char>, Tree)>, i: int)
    requires
        json::are_distinct(members),
    ensures
        0 <= i < members.len() && members[i].0 == "secretRef"@ && <Option<SecretEnvSource> as Readable>::fault(members[i].1) is Some
            ==> EnvFromSource::fault(Tree::Object(members)) is Some,
{
    json::a_field_is_read_by_name_or_place::<Option<SecretEnvSource>>(members, Seq::empty(), i, "secretRef"@, 0);
}

/// A secret env source is read field by field: each from the member of its name or the item of its place, and left
/// empty where there is neither.
pub proof fn a_secret_env_source_is_read_field_by_field(
    members: Seq<(Seq<char>, Tree)>,
    items: Seq<Tree>,
    i: int,
)
    requires
        json::are_distinct(members),
    ensures
        0 <= i < members.len() && members[i].0 == "name"@ ==> SecretEnvSource::value(Tree::Object(members)).name
            == String::value(members[i].1),
        !json::is_there(members, "name"@) ==> SecretEnvSource::value(Tree::Object(members)).name == String::nothing(),
        items.len() > 0 ==> SecretEnvSource::value(Tree::List(items)).name == String::value(items[0]),
{
    json::a_field_is_read_by_name_or_place::<String>(members, items, i, "name"@, 0);
}

/// A secret env source is read wherever each of its members can be.
pub proof fn a_secret_env_source_is_read_where_its_members_are(members: Seq<(Seq<char>, Tree)>)
    requires
        json::are_distinct(members),
        forall|j: int|
            0 <= j < members.len() && (#[trigger] members[j]).0 == "name"@ ==> String::fault(members[j].1) is None,
    ensures
        SecretEnvSource::fault(Tree::Object(members)) is None,
{
    assert forall|j: int| 0 <= j < members.len() implies SecretEnvSource::member_fault(
        (#[trigger] members[j]).0,
        members[j].1,
    ) is None by {}
    json::members_are_read_where_each_is::<SecretEnvSource>(members);
    assert(json::field_fault::<String>(Tree::Object(members), "name"@, 0) is None) by {
        json::a_member_is_found_by_name(members, "name"@);
        if let Some(v) = json::lookup(members, "name"@) {
            let j = choose|j: int| 0 <= j < members.len() && members[j] == ("name"@, v);
            assert(members[j].0 == "name"@);
        }
    }
}

/// A secret env source is refused for any one member that cannot be read.
pub proof fn a_secret_env_source_is_refused_for_one_member(members: Seq<(Seq<char>, Tree)>, i: int)
    requires
        json::are_distinct(members),
    ensures
        0 <= i < members.len() && members[i].0 == "name"@ && String::fault(members[i].1) is Some
            ==> SecretEnvSource::fault(Tree::Object(members)) is Some,
{
    json::a_field_is_read_by_name_or_place::<String>(members, Seq::empty(), i, "name"@, 0);
}

/// A container is placed under the list of the spec that it stands in, and a sidecar is told from the
/// init containers that it stands among.
pub proof fn a_role_has_its_place(k: ContainerKind)
    ensures
        k.place() == "containers"@ <==> k is App,
        k.place() == "initContainers"@ <==> k is Init,
        k.place() == "initContainers(sidecar)"@ <==> k is Sidecar,
        k.place() == "ephemeralContainers"@ <==> k is Ephemeral,
{
    reveal_strlit("containers");
    reveal_strlit("initContainers");
    reveal_strlit("initContainers(sidecar)");
    reveal_strlit("ephemeralContainers");
    assert("containers"@.len() != "initContainers"@.len());
    assert("containers"@.len() != "initContainers(sidecar)"@.len());
    assert("containers"@.len() != "ephemeralContainers"@.len());
    assert("initContainers"@.len() != "initContainers(sidecar)"@.len());
    assert("initContainers"@.len() != "ephemeralContainers"@.len());
    assert("initContainers(sidecar)"@.len() != "ephemeralContainers"@.len());
}

} // verus!
