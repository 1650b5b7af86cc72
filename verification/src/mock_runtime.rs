//! A container runtime that keeps everything in memory.
//!
//! It stands in for a real runtime: it starts no processes. The identifiers of
//! what it creates, and the time, are given to it.
use crate::container_builder::CreateContainerConfig;
use crate::error::KubeletError;
use crate::image_gc::ImageInfo;
use crate::store::{lists_all, Store};
use crate::strmap::StrMap;
use crate::text::{
    cat2, cat3, debug_quoted, debug_text, holds, join, joined, texts,
};
use crate::types::Timestamp;
use vstd::prelude::*;
use vstd::utf8::encode_utf8;

verus! {

// ---------------------------------------------------------------------------
// Sandboxes, containers and images
// ---------------------------------------------------------------------------

#[derive(Debug, Clone, Copy, PartialEq, Eq, Structural)]
pub enum SandboxState {
    Ready,
    NotReady,
}

/// The addresses of a sandbox.
#[derive(Debug)]
pub struct SandboxNetworkStatus {
    pub ip: String,
    pub additional_ips: Vec<String>,
}

/// A sandbox of a pod.
#[derive(Debug)]
pub struct SandboxStatus {
    pub id: String,
    pub pod_uid: String,
    pub pod_name: String,
    pub pod_namespace: String,
    pub state: SandboxState,
    pub created_at: Timestamp,
    pub network: Option<SandboxNetworkStatus>,
    pub labels: StrMap<String>,
}

/// The pod that a sandbox is created for.
#[derive(Debug)]
pub struct CreateSandboxConfig {
    pub pod_uid: String,
    pub pod_name: String,
    pub pod_namespace: String,
    pub labels: StrMap<String>,
}

/// The identifier of a container.
#[derive(Debug)]
pub struct ContainerID(pub String);

#[derive(Debug, Clone, Copy, PartialEq, Eq, Structural)]
pub enum RuntimeContainerState {
    Created,
    Running,
    Exited,
}

/// A container.
#[derive(Debug)]
pub struct RuntimeContainer {
    pub id: ContainerID,
    pub pod_uid: String,
    pub name: String,
    pub attempt: u32,
    pub pid: Option<u32>,
    pub image: String,
    pub image_ref: String,
    pub state: RuntimeContainerState,
    pub created_at: Timestamp,
    pub started_at: Option<Timestamp>,
    pub finished_at: Option<Timestamp>,
    pub exit_code: Option<i32>,
    pub exit_reason: Option<String>,
    pub labels: StrMap<String>,
}

/// What a container uses.
#[derive(Debug, Clone, Copy, PartialEq, Eq, Structural)]
pub struct ContainerStats {
    pub cpu_usage_nano_cores: u64,
    pub memory_usage_bytes: u64,
    pub network_rx_bytes: u64,
    pub network_tx_bytes: u64,
    pub disk_usage_bytes: u64,
    pub timestamp: Option<Timestamp>,
}

/// What a command in a container printed, and how it ended.
#[derive(Debug)]
pub struct ExecResult {
    pub stdout: Vec<u8>,
    pub stderr: Vec<u8>,
    pub exit_code: i32,
}

/// A container runtime in memory.
#[derive(Debug)]
pub struct MockRuntime {
    pub sandboxes: Store<SandboxStatus>,
    pub containers: Store<RuntimeContainer>,
    pub images: Store<ImageInfo>,
    /// Whether starting a container fails.
    pub fail_on_start: bool,
    pub start_calls: u32,
    pub stop_calls: u32,
    pub create_sandbox_calls: u32,
    /// Whether pulling an image fails.
    pub fail_on_pull_image: bool,
    /// The exit code with which a container ends as soon as it is started.
    pub exit_on_start: Option<i32>,
}

/// The sandbox of a pod as it is created.
pub open spec fn new_sandbox(
    s: SandboxStatus,
    config: CreateSandboxConfig,
    id: Seq<char>,
    now: Timestamp,
) -> bool {
    &&& s.id@ == id
    &&& s.pod_uid == config.pod_uid
    &&& s.pod_name == config.pod_name
    &&& s.pod_namespace == config.pod_namespace
    &&& s.state == SandboxState::Ready
    &&& s.created_at == now
    &&& s.network matches Some(n) && n.ip@ == "10.0.0.1"@ && n.additional_ips@.len() == 0
    &&& s.labels == config.labels
}

/// A container as it is created.
pub open spec fn new_container(
    c: RuntimeContainer,
    config: CreateContainerConfig,
    id: Seq<char>,
    now: Timestamp,
) -> bool {
    &&& c.id.0@ == id
    &&& c.pod_uid@ == config.pod_uid@
    &&& c.name@ == config.container.name@
    &&& c.attempt == config.attempt
    &&& c.pid is None
    &&& c.image@ == config.container.image@
    &&& c.image_ref@ == "sha256:mock"@
    &&& c.state == RuntimeContainerState::Created
    &&& c.created_at == now
    &&& c.started_at is None
    &&& c.finished_at is None
    &&& c.exit_code is None
    &&& c.exit_reason is None
    &&& c.labels@ == Map::<Seq<char>, String>::empty()
}

/// A container after its start.
pub open spec fn started(
    c: RuntimeContainer,
    exit: Option<i32>,
    pid: u32,
    now: Timestamp,
) -> RuntimeContainer {
    match exit {
        Some(code) => RuntimeContainer {
            state: RuntimeContainerState::Exited,
            exit_code: Some(code),
            started_at: Some(now),
            finished_at: Some(now),
            ..c
        },
        None => RuntimeContainer {
            state: RuntimeContainerState::Running,
            started_at: Some(now),
            pid: Some(pid),
            ..c
        },
    }
}

/// A container after it was stopped.
pub open spec fn stopped(c: RuntimeContainer, now: Timestamp) -> RuntimeContainer {
    RuntimeContainer {
        state: RuntimeContainerState::Exited,
        exit_code: Some(0),
        finished_at: Some(now),
        ..c
    }
}

/// A map with the record of `k`, where there is one, replaced by `v`.
pub open spec fn with_changed<T>(m: Map<Seq<char>, T>, k: Seq<char>, v: T) -> Map<Seq<char>, T> {
    if m.contains_key(k) {
        m.insert(k, v)
    } else {
        m
    }
}

/// The texts of a list of texts in the `Debug` format.
pub open spec fn quoted(s: Seq<Seq<char>>) -> Seq<Seq<char>> {
    s.map_values(|t: Seq<char>| debug_quoted(t))
}

fn debug_list(v: &Vec<String>) -> (r: String)
    ensures
        r@ == "["@ + joined(quoted(texts(v@)), ", "@) + "]"@,
{
    let mut parts: Vec<String> = Vec::new();
    let mut i: usize = 0;
    assert(texts(parts@) =~= quoted(texts(v@)).take(0));
    while i < v.len()
        invariant
            i <= v@.len(),
            texts(parts@) == quoted(texts(v@)).take(i as int),
        decreases v@.len() - i,
    {
        let q = debug_text(v[i].as_str());
        let ghost before = parts@;
        parts.push(q);
        i = i + 1;
        assert(texts(parts@) =~= texts(before).push(q@));
        assert(texts(parts@) =~= quoted(texts(v@)).take(i as int));
    }
    assert(quoted(texts(v@)).take(i as int) =~= quoted(texts(v@)));
    let inner = join(&parts, ", ");
    cat3("[", inner.as_str(), "]")
}

/// A command that printed a text and succeeded.
pub open spec fn printed(r: ExecResult, text: Seq<char>) -> bool {
    r.stdout@ == encode_utf8(text) && r.stderr@.len() == 0 && r.exit_code == 0
}

fn print(text: &str) -> (r: ExecResult)
    ensures
        printed(r, text@),
{
    ExecResult { stdout: text.as_bytes_vec(), stderr: Vec::new(), exit_code: 0 }
}

impl Default for MockRuntime {
    fn default() -> (r: Self)
        ensures
            r.wf(),
            r.sandboxes@ == Map::<Seq<char>, SandboxStatus>::empty(),
            r.containers@ == Map::<Seq<char>, RuntimeContainer>::empty(),
            r.images@ == Map::<Seq<char>, ImageInfo>::empty(),
            !r.fail_on_start && !r.fail_on_pull_image && r.exit_on_start is None,
            r.start_calls == 0 && r.stop_calls == 0 && r.create_sandbox_calls == 0,
    {
        MockRuntime::new()
    }
}

impl MockRuntime {
    pub open spec fn wf(self) -> bool {
        self.sandboxes.wf() && self.containers.wf() && self.images.wf()
    }

    /// A runtime without sandboxes, containers and images, in which everything
    /// succeeds.
    pub fn new() -> (r: Self)
        ensures
            r.wf(),
            r.sandboxes@ == Map::<Seq<char>, SandboxStatus>::empty(),
            r.containers@ == Map::<Seq<char>, RuntimeContainer>::empty(),
            r.images@ == Map::<Seq<char>, ImageInfo>::empty(),
            !r.fail_on_start && !r.fail_on_pull_image && r.exit_on_start is None,
            r.start_calls == 0 && r.stop_calls == 0 && r.create_sandbox_calls == 0,
    {
        MockRuntime {
            sandboxes: Store::new(),
            containers: Store::new(),
            images: Store::new(),
            fail_on_start: false,
            start_calls: 0,
            stop_calls: 0,
            create_sandbox_calls: 0,
            fail_on_pull_image: false,
            exit_on_start: None,
        }
    }

    /// A new runtime in which no image can be pulled.
    pub fn new_failing() -> (r: Self)
        ensures
            r.wf(),
            r.sandboxes@ == Map::<Seq<char>, SandboxStatus>::empty(),
            r.containers@ == Map::<Seq<char>, RuntimeContainer>::empty(),
            r.images@ == Map::<Seq<char>, ImageInfo>::empty(),
            !r.fail_on_start && r.fail_on_pull_image && r.exit_on_start is None,
            r.start_calls == 0 && r.stop_calls == 0 && r.create_sandbox_calls == 0,
    {
        let mut r = MockRuntime::new();
        r.fail_on_pull_image = true;
        r
    }

    /// Sets whether starting a container fails.
    pub fn set_fail_on_start(&mut self, fail: bool)
        ensures
            *final(self) == (MockRuntime { fail_on_start: fail, ..*old(self) }),
    {
        self.fail_on_start = fail;
    }

    /// Sets the exit code with which containers end as soon as they are started.
    pub fn set_exit_on_start(&mut self, code: Option<i32>)
        ensures
            *final(self) == (MockRuntime { exit_on_start: code, ..*old(self) }),
    {
        self.exit_on_start = code;
    }

    pub fn container_count(&self) -> (r: usize)
        ensures
            r == self.containers@.len(),
    {
        self.containers.len()
    }

    pub fn sandbox_count(&self) -> (r: usize)
        ensures
            r == self.sandboxes@.len(),
    {
        self.sandboxes.len()
    }

    /// Creates a sandbox with the given identifier, and returns the identifier.
    pub fn run_pod_sandbox(&mut self, config: CreateSandboxConfig, id: &str, now: Timestamp) -> (r:
        String)
        requires
            old(self).wf(),
            old(self).create_sandbox_calls < u32::MAX,
        ensures
            final(self).wf(),
            r@ == id@,
            *final(self) == (MockRuntime {
                create_sandbox_calls: (old(self).create_sandbox_calls + 1) as u32,
                sandboxes: final(self).sandboxes,
                ..*old(self)
            }),
            exists|s: SandboxStatus|
                new_sandbox(s, config, id@, now) && final(self).sandboxes@ == #[trigger] old(
                    self,
                ).sandboxes@.insert(id@, s),
    {
        self.create_sandbox_calls = self.create_sandbox_calls + 1;
        let s = SandboxStatus {
            id: id.to_owned(),
            pod_uid: config.pod_uid,
            pod_name: config.pod_name,
            pod_namespace: config.pod_namespace,
            state: SandboxState::Ready,
            created_at: now,
            network: Some(
                SandboxNetworkStatus { ip: "10.0.0.1".to_owned(), additional_ips: Vec::new() },
            ),
            labels: config.labels,
        };
        self.sandboxes.insert(id.to_owned(), s);
        assert(new_sandbox(s, config, id@, now));
        id.to_owned()
    }

    /// Stops a sandbox, where there is such a one.
    pub fn stop_pod_sandbox(&mut self, sandbox_id: &str)
        requires
            old(self).wf(),
        ensures
            final(self).wf(),
            *final(self) == (MockRuntime { sandboxes: final(self).sandboxes, ..*old(self) }),
            final(self).sandboxes@ == with_changed(
                old(self).sandboxes@,
                sandbox_id@,
                (SandboxStatus {
                    state: SandboxState::NotReady,
                    ..old(self).sandboxes@[sandbox_id@]
                }),
            ),
    {
        match self.sandboxes.remove(sandbox_id) {
            Some(mut s) => {
                s.state = SandboxState::NotReady;
                self.sandboxes.insert(sandbox_id.to_owned(), s);
                assert(self.sandboxes@ =~= old(self).sandboxes@.insert(sandbox_id@, s));
            },
            None => {
                assert(self.sandboxes@ =~= old(self).sandboxes@);
            },
        }
    }

    /// Removes a sandbox, where there is such a one.
    pub fn remove_pod_sandbox(&mut self, sandbox_id: &str)
        requires
            old(self).wf(),
        ensures
            final(self).wf(),
            *final(self) == (MockRuntime { sandboxes: final(self).sandboxes, ..*old(self) }),
            final(self).sandboxes@ == old(self).sandboxes@.remove(sandbox_id@),
    {
        let _ = self.sandboxes.remove(sandbox_id);
    }

    /// A sandbox by its identifier.
    pub fn pod_sandbox_status(&self, sandbox_id: &str) -> (r: Option<&SandboxStatus>)
        requires
            self.wf(),
        ensures
            match r {
                Some(s) => self.sandboxes@.contains_key(sandbox_id@) && *s
                    == self.sandboxes@[sandbox_id@],
                None => !self.sandboxes@.contains_key(sandbox_id@),
            },
    {
        self.sandboxes.get(sandbox_id)
    }

    /// All sandboxes with their identifiers, in no particular order.
    pub fn list_pod_sandboxes(&self) -> (r: Vec<(String, &SandboxStatus)>)
        requires
            self.wf(),
        ensures
            lists_all(self.sandboxes@, r@),
    {
        self.sandboxes.list()
    }

    /// Creates a container with the given identifier, and returns the identifier.
    pub fn create_container(&mut self, config: &CreateContainerConfig, id: &str, now: Timestamp) -> (r:
        ContainerID)
        requires
            old(self).wf(),
        ensures
            final(self).wf(),
            r.0@ == id@,
            *final(self) == (MockRuntime { containers: final(self).containers, ..*old(self) }),
            exists|c: RuntimeContainer|
                new_container(c, *config, id@, now) && final(self).containers@ == #[trigger] old(
                    self,
                ).containers@.insert(id@, c),
    {
        let c = RuntimeContainer {
            id: ContainerID(id.to_owned()),
            pod_uid: config.pod_uid.clone(),
            name: config.container.name.clone(),
            attempt: config.attempt,
            pid: None,
            image: config.container.image.clone(),
            image_ref: "sha256:mock".to_owned(),
            state: RuntimeContainerState::Created,
            created_at: now,
            started_at: None,
            finished_at: None,
            exit_code: None,
            exit_reason: None,
            labels: StrMap::new(),
        };
        self.containers.insert(id.to_owned(), c);
        assert(new_container(c, *config, id@, now));
        ContainerID(id.to_owned())
    }

    /// Starts a container, where there is such a one, with the process `pid`.
    pub fn start_container(&mut self, container_id: &ContainerID, pid: u32, now: Timestamp) -> (r:
        Result<(), KubeletError>)
        requires
            old(self).wf(),
            !old(self).fail_on_start ==> old(self).start_calls < u32::MAX,
        ensures
            final(self).wf(),
            if old(self).fail_on_start {
                &&& r matches Err(KubeletError::Runtime(m)) && m@ == "mock start failure"@
                &&& *final(self) == *old(self)
            } else {
                &&& r is Ok
                &&& *final(self) == (MockRuntime {
                    start_calls: (old(self).start_calls + 1) as u32,
                    containers: final(self).containers,
                    ..*old(self)
                })
                &&& final(self).containers@ == with_changed(
                    old(self).containers@,
                    container_id.0@,
                    started(
                        old(self).containers@[container_id.0@],
                        old(self).exit_on_start,
                        pid,
                        now,
                    ),
                )
            },
    {
        if self.fail_on_start {
            return Err(KubeletError::Runtime("mock start failure".to_owned()));
        }
        self.start_calls = self.start_calls + 1;
        match self.containers.remove(container_id.0.as_str()) {
            Some(mut c) => {
                match self.exit_on_start {
                    Some(code) => {
                        c.state = RuntimeContainerState::Exited;
                        c.exit_code = Some(code);
                        c.started_at = Some(now);
                        c.finished_at = Some(now);
                    },
                    None => {
                        c.state = RuntimeContainerState::Running;
                        c.started_at = Some(now);
                        c.pid = Some(pid);
                    },
                }
                self.containers.insert(container_id.0.clone(), c);
                assert(self.containers@ =~= old(self).containers@.insert(container_id.0@, c));
            },
            None => {
                assert(self.containers@ =~= old(self).containers@);
            },
        }
        Ok(())
    }

    /// Stops a container, where there is such a one.
    pub fn stop_container(&mut self, container_id: &ContainerID, now: Timestamp)
        requires
            old(self).wf(),
            old(self).stop_calls < u32::MAX,
        ensures
            final(self).wf(),
            *final(self) == (MockRuntime {
                stop_calls: (old(self).stop_calls + 1) as u32,
                containers: final(self).containers,
                ..*old(self)
            }),
            final(self).containers@ == with_changed(
                old(self).containers@,
                container_id.0@,
                stopped(old(self).containers@[container_id.0@], now),
            ),
    {
        self.stop_calls = self.stop_calls + 1;
        match self.containers.remove(container_id.0.as_str()) {
            Some(mut c) => {
                c.state = RuntimeContainerState::Exited;
                c.exit_code = Some(0);
                c.finished_at = Some(now);
                self.containers.insert(container_id.0.clone(), c);
                assert(self.containers@ =~= old(self).containers@.insert(container_id.0@, c));
            },
            None => {
                assert(self.containers@ =~= old(self).containers@);
            },
        }
    }

    /// Removes a container, where there is such a one.
    pub fn remove_container(&mut self, container_id: &ContainerID)
        requires
            old(self).wf(),
        ensures
            final(self).wf(),
            *final(self) == (MockRuntime { containers: final(self).containers, ..*old(self) }),
            final(self).containers@ == old(self).containers@.remove(container_id.0@),
    {
        let _ = self.containers.remove(container_id.0.as_str());
    }

    /// All containers with their identifiers, in no particular order.
    pub fn list_containers(&self) -> (r: Vec<(String, &RuntimeContainer)>)
        requires
            self.wf(),
        ensures
            lists_all(self.containers@, r@),
    {
        self.containers.list()
    }

    /// A container by its identifier.
    pub fn container_status(&self, container_id: &ContainerID) -> (r: Option<&RuntimeContainer>)
        requires
            self.wf(),
        ensures
            match r {
                Some(c) => self.containers@.contains_key(container_id.0@) && *c
                    == self.containers@[container_id.0@],
                None => !self.containers@.contains_key(container_id.0@),
            },
    {
        self.containers.get(container_id.0.as_str())
    }

    /// What a container uses: always the same.
    pub fn container_stats(&self, container_id: &ContainerID, now: Timestamp) -> (r: Option<
        ContainerStats,
    >)
        ensures
            r == Some(
                ContainerStats {
                    cpu_usage_nano_cores: 1_000_000,
                    memory_usage_bytes: 10_485_760,
                    network_rx_bytes: 1024,
                    network_tx_bytes: 512,
                    disk_usage_bytes: 1_048_576,
                    timestamp: Some(now),
                },
            ),
    {
        Some(
            ContainerStats {
                cpu_usage_nano_cores: 1_000_000,
                memory_usage_bytes: 10_485_760,
                network_rx_bytes: 1024,
                network_tx_bytes: 512,
                disk_usage_bytes: 1_048_576,
                timestamp: Some(now),
            },
        )
    }

    /// Pretends to run a command: prints it.
    pub fn exec_sync(&self, container_id: &ContainerID, command: &Vec<String>) -> (r: ExecResult)
        ensures
            printed(
                r,
                "mock exec: "@ + ("["@ + joined(quoted(texts(command@)), ", "@) + "]"@),
            ),
    {
        let list = debug_list(command);
        let text = cat2("mock exec: ", list.as_str());
        print(text.as_str())
    }

    /// Pretends to attach to a container, which has to be running.
    pub fn attach_sync(&self, container_id: &ContainerID) -> (r: Result<ExecResult, KubeletError>)
        requires
            self.wf(),
        ensures
            if !self.containers@.contains_key(container_id.0@) {
                r matches Err(KubeletError::Runtime(m)) && m@ == "container not found"@
            } else if self.containers@[container_id.0@].state != RuntimeContainerState::Running {
                r matches Err(KubeletError::Runtime(m)) && m@
                    == "container is not running; cannot attach"@
            } else {
                r matches Ok(x) && printed(x, "mock attach: "@ + container_id.0@)
            },
    {
        let c = match self.containers.get(container_id.0.as_str()) {
            Some(c) => c,
            None => {
                return Err(KubeletError::Runtime("container not found".to_owned()));
            },
        };
        if c.state != RuntimeContainerState::Running {
            return Err(
                KubeletError::Runtime("container is not running; cannot attach".to_owned()),
            );
        }
        let text = cat2("mock attach: ", container_id.0.as_str());
        Ok(print(text.as_str()))
    }

    /// Pretends to pull an image. Its identifier is made of `digest`.
    pub fn pull_image(&mut self, image: &str, digest: &str) -> (r: Result<String, KubeletError>)
        requires
            old(self).wf(),
        ensures
            final(self).wf(),
            if old(self).fail_on_pull_image {
                &&& r matches Err(KubeletError::Runtime(m)) && m@
                    == "mock pull failure for image '"@ + image@ + "'"@
                &&& *final(self) == *old(self)
            } else {
                &&& r matches Ok(id) && id@ == "sha256:"@ + digest@
                &&& *final(self) == (MockRuntime { images: final(self).images, ..*old(self) })
                &&& exists|i: ImageInfo|
                    pulled_image(i, image@, digest@) && final(self).images@ == #[trigger] old(
                        self,
                    ).images@.insert("sha256:"@ + digest@, i)
            },
    {
        if self.fail_on_pull_image {
            return Err(
                KubeletError::Runtime(cat3("mock pull failure for image '", image, "'")),
            );
        }
        let id = cat2("sha256:", digest);
        let mut repo_tags: Vec<String> = Vec::new();
        repo_tags.push(image.to_owned());
        assert(texts(repo_tags@) =~= seq![image@]);
        let i = ImageInfo {
            id: id.clone(),
            repo_tags,
            repo_digests: Vec::new(),
            size_bytes: 50_000_000,
        };
        self.images.insert(id.clone(), i);
        assert(pulled_image(i, image@, digest@));
        Ok(id)
    }

    /// All images with their identifiers, in no particular order.
    pub fn list_images(&self) -> (r: Vec<(String, &ImageInfo)>)
        requires
            self.wf(),
        ensures
            lists_all(self.images@, r@),
    {
        self.images.list()
    }

    /// Removes an image, where there is such a one.
    pub fn remove_image(&mut self, image_id: &str)
        requires
            old(self).wf(),
        ensures
            final(self).wf(),
            *final(self) == (MockRuntime { images: final(self).images, ..*old(self) }),
            final(self).images@ == old(self).images@.remove(image_id@),
    {
        let _ = self.images.remove(image_id);
    }

    /// An image with the given tag. Where several have it, it is one of them.
    pub fn image_status(&self, image: &str) -> (r: Option<&ImageInfo>)
        requires
            self.wf(),
        ensures
            match r {
                Some(i) => texts(i.repo_tags@).contains(image@) && exists|k: Seq<char>| #[trigger]
                    self.images@.contains_key(k) && self.images@[k] == *i,
                None => forall|k: Seq<char>| #[trigger]
                    self.images@.contains_key(k) ==> !texts(self.images@[k].repo_tags@).contains(
                        image@,
                    ),
            },
    {
        let all = self.images.list();
        let mut i: usize = 0;
        while i < all.len()
            invariant
                i <= all@.len(),
                lists_all(self.images@, all@),
                forall|j: int|
                    0 <= j < i ==> !texts((#[trigger] all@[j]).1.repo_tags@).contains(image@),
            decreases all@.len() - i,
        {
            if holds(&all[i].1.repo_tags, image) {
                assert(self.images@.contains_key(all@[i as int].0@));
                return Some(all[i].1);
            }
            i = i + 1;
        }
        assert forall|k: Seq<char>| #[trigger] self.images@.contains_key(k) implies !texts(
            self.images@[k].repo_tags@,
        ).contains(image@) by {
            let j = choose|j: int| 0 <= j < all@.len() && (#[trigger] all@[j]).0@ == k;
            assert(self.images@[all@[j].0@] == *all@[j].1);
        }
        None
    }
}

/// An image as it is pulled.
pub open spec fn pulled_image(i: ImageInfo, image: Seq<char>, digest: Seq<char>) -> bool {
    &&& i.id@ == "sha256:"@ + digest
    &&& texts(i.repo_tags@) == seq![image]
    &&& i.repo_digests@.len() == 0
    &&& i.size_bytes == 50_000_000
}

/// A container that was stopped has exited with success, whatever it was before;
/// no other container changed.
pub proof fn law_stopped_containers_have_exited(
    before: Map<Seq<char>, RuntimeContainer>,
    after: Map<Seq<char>, RuntimeContainer>,
    id: Seq<char>,
    now: Timestamp,
    other: Seq<char>,
)
    requires
        after == with_changed(before, id, stopped(before[id], now)),
    ensures
        before.contains_key(id) ==> after.contains_key(id) && after[id].state
            == RuntimeContainerState::Exited && after[id].exit_code == Some(0i32),
        before.contains_key(other) == after.contains_key(other),
        other != id && before.contains_key(other) ==> after[other] == before[other],
{
}

/// A container that was started runs from then on, or has exited at once with
/// the code that was set for that; what it is stays.
pub proof fn law_started_containers_run(
    c: RuntimeContainer,
    exit: Option<i32>,
    pid: u32,
    now: Timestamp,
)
    ensures
        started(c, exit, pid, now).started_at == Some(now),
        exit is None ==> {
            &&& started(c, exit, pid, now).state is Running
            &&& started(c, exit, pid, now).pid == Some(pid)
            &&& started(c, exit, pid, now).exit_code == c.exit_code
            &&& started(c, exit, pid, now).finished_at == c.finished_at
        },
        exit is Some ==> {
            &&& started(c, exit, pid, now).state is Exited
            &&& started(c, exit, pid, now).exit_code == exit
            &&& started(c, exit, pid, now).finished_at == Some(now)
            &&& started(c, exit, pid, now).pid == c.pid
        },
        started(c, exit, pid, now).id == c.id,
        started(c, exit, pid, now).name == c.name,
        started(c, exit, pid, now).image == c.image,
        started(c, exit, pid, now).pod_uid == c.pod_uid,
        started(c, exit, pid, now).created_at == c.created_at,
{
}

/// Stopping a container keeps what it is and when it was started.
pub proof fn law_stopped_containers_keep_what_they_are(c: RuntimeContainer, now: Timestamp)
    ensures
        stopped(c, now).state is Exited,
        stopped(c, now).finished_at == Some(now),
        stopped(c, now).started_at == c.started_at,
        stopped(c, now).id == c.id,
        stopped(c, now).name == c.name,
        stopped(c, now).pod_uid == c.pod_uid,
        stopped(c, now).image == c.image,
{
}

/// What is created is what was asked for, is there from then on, and has not
/// run.
pub proof fn law_created_is_what_was_asked_for(
    s: SandboxStatus,
    sandbox: CreateSandboxConfig,
    c: RuntimeContainer,
    container: CreateContainerConfig,
    sandbox_id: Seq<char>,
    container_id: Seq<char>,
    now: Timestamp,
)
    requires
        new_sandbox(s, sandbox, sandbox_id, now),
        new_container(c, container, container_id, now),
    ensures
        s.id@ == sandbox_id,
        s.pod_uid@ == sandbox.pod_uid@,
        s.pod_name@ == sandbox.pod_name@,
        s.pod_namespace@ == sandbox.pod_namespace@,
        s.state is Ready,
        s.created_at == now,
        s.labels@ == sandbox.labels@,
        c.id.0@ == container_id,
        c.pod_uid@ == container.pod_uid@,
        c.name@ == container.container.name@,
        c.image@ == container.container.image@,
        c.attempt == container.attempt,
        c.state is Created,
        c.created_at == now,
        c.started_at is None && c.finished_at is None && c.exit_code is None && c.pid is None,
{
}

/// An image that was pulled goes by its digest and has the name under which it
/// was pulled.
pub proof fn law_pulled_images_have_their_names(i: ImageInfo, image: Seq<char>, digest: Seq<char>)
    requires
        pulled_image(i, image, digest),
    ensures
        i.id@ == "sha256:"@ + digest,
        i.repo_tags@.len() == 1,
        i.repo_tags@[0]@ == image,
{
    assert(texts(i.repo_tags@).len() == i.repo_tags@.len());
    assert(texts(i.repo_tags@)[0] == i.repo_tags@[0]@);
}

/// A command that prints ends well, with its text on the one stream alone.
pub proof fn law_printing_ends_well(r: ExecResult, text: Seq<char>)
    requires
        printed(r, text),
    ensures
        r.exit_code == 0,
        r.stdout@ == encode_utf8(text),
        r.stderr@.len() == 0,
{
}

/// What is not asked for has its fixed value.
pub proof fn law_what_is_not_asked_for_is_fixed(
    i: ImageInfo,
    image: Seq<char>,
    digest: Seq<char>,
    c: RuntimeContainer,
    cc: CreateContainerConfig,
    s: SandboxStatus,
    sc: CreateSandboxConfig,
    id: Seq<char>,
    now: Timestamp,
    key: Seq<char>,
)
    requires
        pulled_image(i, image, digest),
        new_container(c, cc, id, now),
        new_sandbox(s, sc, id, now),
    ensures
        i.repo_digests@.len() == 0,
        i.size_bytes == 50_000_000,
        c.image_ref@ == "sha256:mock"@,
        !c.labels@.contains_key(key),
        c.pid is None && c.started_at is None && c.finished_at is None && c.exit_code is None
            && c.exit_reason is None,
        c.attempt == cc.attempt,
        s.network is Some && s.network->0.ip@ == "10.0.0.1"@ && s.network->0.additional_ips@.len()
            == 0,
        s.labels == sc.labels,
{
}

} // verus!
