use std::sync::Arc;

use dependency_factory::{BuildError, DependencyFactory, DependencyFactoryHandle, Singleton};

struct Config {
    greeting: String,
}

impl Singleton for Config {
    fn build(_factory: &DependencyFactoryHandle) -> Result<Self, BuildError> {
        Ok(Config {
            greeting: "hello".into(),
        })
    }
}

struct Greeter {
    config: Arc<Config>,
}

impl Singleton for Greeter {
    fn build(factory: &DependencyFactoryHandle) -> Result<Self, BuildError> {
        Ok(Greeter {
            config: factory.build::<Config>()?,
        })
    }
}

struct Service {
    greeter: Arc<Greeter>,
    name: String,
}

impl Singleton for Service {
    fn build(factory: &DependencyFactoryHandle) -> Result<Self, BuildError> {
        Ok(Service {
            greeter: factory.build::<Greeter>()?,
            name: "world".into(),
        })
    }
}

#[test]
fn auto_builds_a_dependency_chain() {
    let factory = DependencyFactory::new();
    let service = factory.build::<Service>().unwrap();
    assert_eq!(service.greeter.config.greeting, "hello");
    assert_eq!(service.name, "world");
}

#[test]
fn build_caches_each_resource() {
    let factory = DependencyFactory::new();
    let s1 = factory.build::<Service>().unwrap();
    let s2 = factory.build::<Service>().unwrap();
    assert!(Arc::ptr_eq(&s1, &s2));
    let g1 = factory.build::<Greeter>().unwrap();
    assert!(Arc::ptr_eq(&s1.greeter, &g1));
}

#[test]
fn pre_inserted_resource_short_circuits_build() {
    let factory = DependencyFactory::new();
    let custom = factory.insert(Config {
        greeting: "g'day".into(),
    });
    let greeter = factory.build::<Greeter>().unwrap();
    assert!(Arc::ptr_eq(&greeter.config, &custom));
    assert_eq!(greeter.config.greeting, "g'day");
}

#[derive(Debug)]
struct Failing;

#[derive(Debug)]
struct Upstream;

impl std::fmt::Display for Upstream {
    fn fmt(&self, f: &mut std::fmt::Formatter<'_>) -> std::fmt::Result {
        f.write_str("upstream is unavailable")
    }
}

impl std::error::Error for Upstream {}

impl From<Upstream> for BuildError {
    fn from(e: Upstream) -> Self {
        BuildError::failure(e.to_string())
    }
}

impl Singleton for Failing {
    fn build(_factory: &DependencyFactoryHandle) -> Result<Self, BuildError> {
        Err(Upstream.into())
    }

    fn name() -> &'static str {
        "build_singletons::Failing"
    }
}

#[derive(Debug)]
#[allow(dead_code)]
struct DependsOnFailing {
    f: Arc<Failing>,
}

impl Singleton for DependsOnFailing {
    fn build(factory: &DependencyFactoryHandle) -> Result<Self, BuildError> {
        Ok(DependsOnFailing {
            f: factory.build::<Failing>()?,
        })
    }

    fn name() -> &'static str {
        "build_singletons::DependsOnFailing"
    }
}

#[test]
fn errors_carry_a_chain_of_frames() {
    let factory = DependencyFactory::new();
    let err = factory.build::<DependsOnFailing>().unwrap_err();
    let chain = err.chain();
    assert_eq!(chain.len(), 2);
    assert!(
        chain[0].ends_with("Failing"),
        "innermost frame: {}",
        chain[0]
    );
    assert!(
        chain[1].ends_with("DependsOnFailing"),
        "outermost frame: {}",
        chain[1],
    );
    let rendered = err.render();
    assert!(rendered.contains("DependsOnFailing"));
    assert!(rendered.contains("Failing"));
    assert!(rendered.contains("upstream is unavailable"));
}

#[test]
fn error_text_lists_frames_innermost_first() {
    let factory = DependencyFactory::new();
    let err = factory.build::<DependsOnFailing>().unwrap_err();
    assert_eq!(
        err.render(),
        "while building build_singletons::Failing\n\
         while building build_singletons::DependsOnFailing\n\
         caused by: upstream is unavailable"
    );
    assert_eq!(err.cause_text(), "upstream is unavailable");
    assert!(err.cycle_cause().is_none());
}

#[test]
fn failed_build_is_not_cached() {
    let factory = DependencyFactory::new();
    assert!(factory.build::<Failing>().is_err());
    assert!(factory.get::<Failing>().is_none());
    assert!(factory.build::<Failing>().is_err());
}

#[test]
fn default_name_names_unnamed_resources() {
    #[derive(Debug)]
    struct Broken;
    impl Singleton for Broken {
        fn build(_factory: &DependencyFactoryHandle) -> Result<Self, BuildError> {
            Err(BuildError::failure("no".to_string()))
        }
    }
    let factory = DependencyFactory::new();
    let err = factory.build::<Broken>().unwrap_err();
    assert_eq!(err.chain(), &["unnamed resource"]);
}
