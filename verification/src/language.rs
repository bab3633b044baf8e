use vstd::prelude::*;

verus! {

/// The toolchain profile this project template ships for the Rust
/// language: build tooling, framework catalogue, testing, linting and
/// deployment defaults. Keyed lists are association vectors with unique
/// keys.
#[derive(Debug, Clone)]
pub struct LanguageConfig {
    pub language: String,
    pub extensions: Vec<String>,
    pub build_tools: BuildTools,
    pub frameworks: Vec<(String, Vec<String>)>,
    pub testing: TestingConfig,
    pub linting: LintingConfig,
    pub patterns: Vec<(String, String)>,
    pub dev_server: DevServerConfig,
    pub deployment: DeploymentConfig,
}

#[derive(Debug, Clone)]
pub struct BuildTools {
    pub package_manager: String,
    pub build_system: String,
    pub build_command: String,
    pub test_command: String,
    pub lint_command: String,
    pub format_command: String,
    pub check_command: String,
    pub alternative_managers: Vec<String>,
    pub registry: String,
}

#[derive(Debug, Clone)]
pub struct TestingConfig {
    pub unit: Vec<String>,
    pub integration: Vec<String>,
    pub benchmark: Vec<String>,
    pub coverage: Vec<String>,
    pub property_testing: Vec<String>,
    pub config_file: String,
}

#[derive(Debug, Clone)]
pub struct LintingConfig {
    pub linter: String,
    pub config: String,
    pub formatter: String,
    pub static_analysis: Vec<String>,
    pub security_scanner: Vec<String>,
}

#[derive(Debug, Clone)]
pub struct DevServerConfig {
    pub command: String,
    pub default_port: u16,
    pub hot_reload: bool,
    pub watch_tool: String,
}

#[derive(Debug, Clone)]
pub struct DeploymentConfig {
    pub platforms: Vec<String>,
    pub containerization: String,
    pub ci: Vec<String>,
    pub cloud_native: Vec<String>,
    pub cross_compilation: Vec<String>,
}

impl LanguageConfig {
    /// The category names of the framework catalogue, in order.
    pub open spec fn framework_keys(self) -> Seq<Seq<char>> {
        self.frameworks@.map_values(|p: (String, Vec<String>)| p.0@)
    }

    /// The Rust profile: Cargo tooling, the usual web/async/cli/database/
    /// serialization framework catalogue, clippy and rustfmt, and the
    /// standard deployment targets.
    pub fn new() -> (c: LanguageConfig)
        ensures
            c.language@ == "rust"@,
            c.extensions@.len() == 2,
            c.extensions@[0]@ == ".rs"@,
            c.extensions@[1]@ == ".toml"@,
            c.framework_keys() == seq![
                "web"@,
                "async"@,
                "cli"@,
                "database"@,
                "serialization"@,
            ],
            c.build_tools.package_manager@ == "Cargo"@,
            c.dev_server.default_port == 8000,
            c.patterns@.len() == 5,
    {
        let mut frameworks: Vec<(String, Vec<String>)> = Vec::new();
        let mut web: Vec<String> = Vec::new();
        web.push("Actix-web".to_owned());
        web.push("Rocket".to_owned());
        web.push("Warp".to_owned());
        web.push("Axum".to_owned());
        web.push("Tide".to_owned());
        web.push("Gotham".to_owned());
        frameworks.push(("web".to_owned(), web));
        let mut asynchronous: Vec<String> = Vec::new();
        asynchronous.push("Tokio".to_owned());
        asynchronous.push("async-std".to_owned());
        asynchronous.push("Smol".to_owned());
        asynchronous.push("Futures".to_owned());
        frameworks.push(("async".to_owned(), asynchronous));
        let mut cli: Vec<String> = Vec::new();
        cli.push("Clap".to_owned());
        cli.push("StructOpt".to_owned());
        cli.push("Argh".to_owned());
        cli.push("Docopt".to_owned());
        frameworks.push(("cli".to_owned(), cli));
        let mut database: Vec<String> = Vec::new();
        database.push("Diesel".to_owned());
        database.push("SQLx".to_owned());
        database.push("SeaORM".to_owned());
        database.push("Rusqlite".to_owned());
        frameworks.push(("database".to_owned(), database));
        let mut serialization: Vec<String> = Vec::new();
        serialization.push("Serde".to_owned());
        serialization.push("Bincode".to_owned());
        serialization.push("TOML".to_owned());
        serialization.push("JSON".to_owned());
        frameworks.push(("serialization".to_owned(), serialization));

        let mut patterns: Vec<(String, String)> = Vec::new();
        patterns.push(("ownership".to_owned(), "ownership and borrowing".to_owned()));
        patterns.push(("error_handling".to_owned(), "Result<T, E> and Option<T>".to_owned()));
        patterns.push(("pattern_matching".to_owned(), "match expressions".to_owned()));
        patterns.push(("traits".to_owned(), "trait-based polymorphism".to_owned()));
        patterns.push(("async_programming".to_owned(), "async/await with futures".to_owned()));

        let mut extensions: Vec<String> = Vec::new();
        extensions.push(".rs".to_owned());
        extensions.push(".toml".to_owned());

        let mut alternative_managers: Vec<String> = Vec::new();
        alternative_managers.push("Bazel".to_owned());
        alternative_managers.push("Buck2".to_owned());

        let mut unit: Vec<String> = Vec::new();
        unit.push("std::test".to_owned());
        unit.push("pretty_assertions".to_owned());
        let mut integration: Vec<String> = Vec::new();
        integration.push("cargo test".to_owned());
        integration.push("integration tests".to_owned());
        let mut benchmark: Vec<String> = Vec::new();
        benchmark.push("criterion".to_owned());
        benchmark.push("bench".to_owned());
        let mut coverage: Vec<String> = Vec::new();
        coverage.push("tarpaulin".to_owned());
        coverage.push("grcov".to_owned());
        let mut property_testing: Vec<String> = Vec::new();
        property_testing.push("proptest".to_owned());
        property_testing.push("quickcheck".to_owned());

        let mut static_analysis: Vec<String> = Vec::new();
        static_analysis.push("clippy".to_owned());
        static_analysis.push("miri".to_owned());
        let mut security_scanner: Vec<String> = Vec::new();
        security_scanner.push("cargo-audit".to_owned());
        security_scanner.push("cargo-deny".to_owned());

        let mut platforms: Vec<String> = Vec::new();
        platforms.push("AWS".to_owned());
        platforms.push("Google Cloud".to_owned());
        platforms.push("Azure".to_owned());
        platforms.push("Railway".to_owned());
        platforms.push("Fly.io".to_owned());
        let mut ci: Vec<String> = Vec::new();
        ci.push("GitHub Actions".to_owned());
        ci.push("GitLab CI".to_owned());
        ci.push("CircleCI".to_owned());
        ci.push("Jenkins".to_owned());
        let mut cloud_native: Vec<String> = Vec::new();
        cloud_native.push("Kubernetes".to_owned());
        cloud_native.push("Docker".to_owned());
        let mut cross_compilation: Vec<String> = Vec::new();
        cross_compilation.push("x86_64-pc-windows-gnu".to_owned());
        cross_compilation.push("x86_64-apple-darwin".to_owned());
        cross_compilation.push("aarch64-apple-darwin".to_owned());
        cross_compilation.push("x86_64-unknown-linux-gnu".to_owned());

        let c = LanguageConfig {
            language: "rust".to_owned(),
            extensions,
            build_tools: BuildTools {
                package_manager: "Cargo".to_owned(),
                build_system: "Cargo".to_owned(),
                build_command: "cargo build".to_owned(),
                test_command: "cargo test".to_owned(),
                lint_command: "cargo clippy".to_owned(),
                format_command: "cargo fmt".to_owned(),
                check_command: "cargo check".to_owned(),
                alternative_managers,
                registry: "https://crates.io/".to_owned(),
            },
            frameworks,
            testing: TestingConfig {
                unit,
                integration,
                benchmark,
                coverage,
                property_testing,
                config_file: "Cargo.toml".to_owned(),
            },
            linting: LintingConfig {
                linter: "clippy".to_owned(),
                config: "clippy.toml".to_owned(),
                formatter: "rustfmt".to_owned(),
                static_analysis,
                security_scanner,
            },
            patterns,
            dev_server: DevServerConfig {
                command: "cargo run".to_owned(),
                default_port: 8000,
                hot_reload: false,
                watch_tool: "cargo-watch".to_owned(),
            },
            deployment: DeploymentConfig {
                platforms,
                containerization: "Docker".to_owned(),
                ci,
                cloud_native,
                cross_compilation,
            },
        };
        proof {
            assert(c.framework_keys() =~= seq![
                "web"@,
                "async"@,
                "cli"@,
                "database"@,
                "serialization"@,
            ]);
        }
        c
    }

    /// Whether the framework catalogue has a category named `key`.
    pub fn has_framework(&self, key: &str) -> (r: bool)
        ensures
            r == self.framework_keys().contains(key@),
    {
        let owned = key.to_owned();
        let mut i: usize = 0;
        while i < self.frameworks.len()
            invariant
                owned@ == key@,
                i <= self.frameworks@.len(),
                forall|j: int| 0 <= j < i ==> self.framework_keys()[j] != key@,
            decreases self.frameworks@.len() - i,
        {
            if self.frameworks[i].0 == owned {
                proof {
                    assert(self.framework_keys()[i as int] == key@);
                }
                return true;
            }
            i += 1;
        }
        proof {
            assert(!self.framework_keys().contains(key@)) by {
                if self.framework_keys().contains(key@) {
                    let j = choose|j: int|
                        0 <= j < self.framework_keys().len() && self.framework_keys()[j] == key@;
                    assert(self.framework_keys()[j] != key@);
                }
            }
        }
        false
    }
}

impl Default for LanguageConfig {
    fn default() -> (c: LanguageConfig)
        ensures
            c.language@ == "rust"@,
            c.framework_keys() == seq![
                "web"@,
                "async"@,
                "cli"@,
                "database"@,
                "serialization"@,
            ],
    {
        LanguageConfig::new()
    }
}

} // verus!
