# hab

The decisions behind a few `hab` commands, verified with Verus.

- `setup`, with `prompt` and `setup_text`: the dialogue that sets up the command line interface.
  `setup_laws` states what holds of a whole dialogue, and `setup_outcome` what it has brought about
  at its end.
- `uninstall`, with `ident`, `deletion` and `latest`: uninstalling packages together with the
  dependencies that nothing else uses. `uninstall_laws` states what holds of a whole run, and
  `uninstall_outcome` what it has done when it is over.
- `clean_delete`, with `path`: deleting a package from disk and the directories left empty above
  it.
- `supervisor`: listing the services that a supervisor has loaded.
- `binlink`: the directory of binlinks on the machine's search path.
- `engine`, with `arg`: the engines that build container images, and the argument that chooses
  one.

A command that alternates between deciding and acting is a state machine: `request` or `stage`
tells what it waits for, and `step` takes the answer and returns what to show and do. `app/` holds
the loops that ask the terminal, the disk and the network.

What is trusted rather than proved stands in `arg` (`clap`) and in `prompt` (`url`).
