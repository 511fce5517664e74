# Kogiasima

A small container runtime for Linux, named after the dwarf sperm whale *Kogia sima*.
It generates a `config.json` from the command line and runs the container that the file
describes: with a root file system, a hostname, limits, namespaces, a network and a
firewall of its own.

The runtime is split in two.

- `src/` decides. It is written in Verus: every function states in its contract what it
  does, and the proofs are part of the source. It never touches the system. It makes
  programs of requests (mount this, write that file, add this link), takes the replies
  and says what comes next, what is told and what fails.
- `app/` performs. It reads the options and the configuration, forks, mounts, talks to
  the kernel, and hands every reply back.

What holds of a container as a whole is stated and proved in
`src/container/guarantees.rs`: the child is woken only when its limits, its network and
its firewall are in place, and none of that is begun before the child has left the host's
namespaces; the command starts only inside the finished container and takes the place of
its process; a host side that is done has removed the control group and the firewall.

`src/basic/` holds two plainer runtimes without a network. One takes its container from
arguments and environment variables, the other from a bundle.
