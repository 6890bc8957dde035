# heisspunk

A Wi-Fi hotspot manager around `hostapd`, with a DHCP server and a DNS forwarder
of its own. What it decides is a library verified with Verus; what touches the
machine is a thin program around it.

## Layout

- `src/` is the verified library.
  - `text`, `number`, `unicode`: strings and numbers in text.
  - `net`, `wire`, `dhcp`, `dns`: addresses, the DHCP message format, the DHCP
    server with its leases, the DNS forwarder.
  - `config`, `cli`, `defaults`, `report`: the settings, the flags that override
    them, that the defaults go together, and what is shown of them.
  - `phy`, `hostapd`: what a radio can do, and the configuration of `hostapd`.
  - `process`, `record`, `session`, `supervisor`: the commands that set the
    machine up and take it down, the record of the NAT rules that were added, the
    order of a start, and the loop that keeps the hotspot up.
- `app/` is the program: the command line, files, sockets, processes, signals.
- `tests/` runs the library on concrete values.

Functions named `law_...` are what holds of several operations together: that an
offered address is granted to the client that asks for it, that two clients hold
the same address only after one of them renewed a lease that had expired, that
stopping deletes the rules that starting added, that flags take precedence over
the configuration file.

Trusted without proof are two conversions of the standard library, in `unicode`:
`str::to_lowercase` and `String::from_utf8_lossy`.

## Running it

`hostapd`, `iptables`, `iw` and `ip` have to be installed. The configuration is
read from `~/.config/heisspunk/config.toml`.

```sh
heisspunk start            # start the hotspot (as root)
heisspunk stop             # end hostapd, remove the NAT rules
heisspunk status           # running / stopped
heisspunk show             # the settings, with the flags applied
heisspunk config-path      # where the configuration file is
heisspunk generate-config  # write a configuration file to start from
```
