# warp_app

Verified pieces of the Warp client's application logic, written in Verus.

`src/` is the library; every function in it carries a contract that Verus
proves, apart from a handful of small trusted wrappers around outside crates
(`url`, `thousands`, `dirs`) and `std`, each documented where it stands.

- `git_credentials/`: task Git credentials: path normalization, credential
  selection and de-duplication, the credential store, Git and `glab`
  configuration text, the GitLab network preflight as a state machine, and
  the refresh back-off.
- `command_x_ray/`: the command x-ray hover rules, the character/byte offset
  arithmetic, the host's show/hide decisions and the tooltip label.
- `local_automations/`: the automations page, its overflow menu, the agent
  modal, the prompts they hand to an agent, and schedule text.
- `usage.rs`: usage text, the per-model rows and breakdowns, and the usage
  popover's state.
- `orchestration.rs`, `mcp_readiness.rs`, `factory_access.rs`, `plugins.rs`,
  `single_instance.rs`, `startup_auth.rs`: state machines that return the
  effects for their host to carry out.
- `environment.rs`: the secrets an agent environment exposes and how the
  secret flags change them.
- `vim_selection.rs`: the selection arithmetic behind the editors' vim
  motions and operators.
- `requested_command.rs`, `status_text.rs`, `runner.rs`, `ambient_task.rs`:
  header, highlight and status text, the runner command's argument rules and
  runner selection, and a task's display name.

`app/` is ordinary Rust around the library: file and process I/O for the
credential files, the YAML form of the `glab` configuration, floating-point
usage figures and pointer geometry.

`tests/` exercises the library through its public API.
